//! The commands that read and write documents: what each of them answers,
//! and what it does to the collections and the cursors of a connection.

use crate::aggregation::{run_pipeline, AggregationEngine, AggregationError};
use crate::bson::{
    docs_view, lemma_view_array, lemma_view_document, lookup, str_eq, values_view, Bson, BsonView,
    DocView, Document,
};
use crate::codec::{encode_document, legal_document};
use crate::cursor::{batch_len, is_open, killed_from, Batch, CursorError, CursorRegistry};
use crate::mongodb_commands::{
    command_kind, database_info, hello_response, version_info, CODE_COMMAND_NOT_FOUND,
    CODE_NOT_IMPLEMENTED, OK_ONE,
};
use crate::store::{databases_in, names_in, names_view, others_unchanged};
use crate::wire_protocol::{
    command_document_of, parse_wire_message, response_frame, wire_message_matches, WireError,
    WireMessage, WireMessageView, WireProtocolHandler,
};
use crate::writes::{
    apply_deletes, apply_inserts, apply_updates, build_write_response, delete_batch_from,
    insert_from, no_writes, update_batch_from, write_response, BatchState, WriteOutcome,
};
use crate::mongodb_commands::{
    cursor_response, error_response, success_response, CommandKind, MongoDBCommandRegistry,
    CODE_BAD_VALUE, CODE_CURSOR_NOT_FOUND, CODE_FAILED_TO_PARSE, CODE_INTERNAL_ERROR,
};
use crate::storage::{count_documents, counted, find_documents, found, StorageError};
use crate::store::{documents_of, has_collection, ObjectIdGenerator, Store};
use crate::indexing::{without_collection, IndexManager};
use crate::text::concat;
use vstd::prelude::*;

verus! {

/// Documents in a batch where a command names no size.
pub const DEFAULT_BATCH_SIZE: usize = 101;

/// The state that the commands of one connection work on.
#[derive(Debug)]
pub struct CommandProcessor {
    pub store: Store,
    pub cursors: CursorRegistry,
    pub ids: ObjectIdGenerator,
    pub default_database: String,
    pub connection_id: i32,
    pub indexes: IndexManager,
}

/// `<database>.<collection>`.
pub open spec fn namespace(db: Seq<char>, coll: Seq<char>) -> Seq<char> {
    db + "."@ + coll
}

/// The response to a command whose arguments cannot be used.
pub open spec fn failed_to_parse(message: Seq<char>) -> DocView {
    error_response(CODE_FAILED_TO_PARSE, "FailedToParse"@, message)
}

/// The response to a query that cannot be run.
pub open spec fn bad_value(message: Seq<char>) -> DocView {
    error_response(CODE_BAD_VALUE, "BadValue"@, message)
}

/// The count under `key`: `default` where there is none; `None` where the
/// value is not an integer, is negative or is beyond the counts of this
/// machine.
pub open spec fn count_arg(doc: DocView, key: Seq<char>, default: usize) -> Option<usize> {
    match lookup(doc, key) {
        None => Some(default),
        Some(BsonView::Int32(n)) => if n >= 0 {
            Some(n as usize)
        } else {
            None
        },
        Some(BsonView::Int64(n)) => if 0 <= n <= usize::MAX {
            Some(n as usize)
        } else {
            None
        },
        Some(_) => None,
    }
}

/// The document under `key`: `Some(None)` where there is none; `None`
/// where the value is not a document.
pub open spec fn doc_arg(doc: DocView, key: Seq<char>) -> Option<Option<DocView>> {
    match lookup(doc, key) {
        None => Some(None),
        Some(BsonView::Document(d)) => Some(Some(d)),
        Some(_) => None,
    }
}

/// The arguments of a `find` command.
pub struct FindArgs {
    pub collection: Seq<char>,
    pub filter: DocView,
    pub projection: Option<DocView>,
    pub sort: Option<DocView>,
    pub skip: usize,
    /// `None` where the command sets no limit, or sets it to zero.
    pub limit: Option<usize>,
    pub batch_size: usize,
}

/// The arguments that a `find` command spells; `None` where one of them
/// cannot be used.
pub open spec fn find_args(doc: DocView) -> Option<FindArgs> {
    match (
        lookup(doc, "find"@),
        doc_arg(doc, "filter"@),
        doc_arg(doc, "projection"@),
        doc_arg(doc, "sort"@),
        count_arg(doc, "skip"@, 0),
        count_arg(doc, "limit"@, 0),
        count_arg(doc, "batchSize"@, DEFAULT_BATCH_SIZE),
    ) {
        (
            Some(BsonView::String(collection)),
            Some(filter),
            Some(projection),
            Some(sort),
            Some(skip),
            Some(limit),
            Some(batch_size),
        ) => Some(
            FindArgs {
                collection,
                filter: match filter {
                    Some(f) => f,
                    None => Seq::empty(),
                },
                projection,
                sort,
                skip,
                limit: if limit == 0 {
                    None
                } else {
                    Some(limit)
                },
                batch_size,
            },
        ),
        _ => None,
    }
}

/// The words that describe why a query cannot be run.
pub open spec fn storage_error_text(e: StorageError) -> Seq<char> {
    match e {
        StorageError::Filter(_) => "cannot evaluate the filter"@,
        StorageError::Update(_) => "cannot apply the update"@,
        StorageError::Aggregation(AggregationError::Filter(_)) => "cannot evaluate the filter"@,
        StorageError::Aggregation(AggregationError::NotImplemented) => "stage not implemented"@,
        StorageError::Aggregation(AggregationError::UnknownStage) => "unknown pipeline stage"@,
        StorageError::Aggregation(AggregationError::MixedProjection) => "projection mixes inclusion and exclusion"@,
        StorageError::Aggregation(_) => "invalid stage argument"@,
    }
}

/// What a cursor command leaves of the registry, and what it answers, once
/// its documents are at hand: the first `batch_size` of them go into the
/// response, under `batch_key`; the rest, where there is one, stays under
/// a new cursor, whose id the response carries; where nothing is left the
/// response carries the id zero and no cursor is kept.
pub open spec fn batch_reply(
    before: CursorRegistry,
    after: CursorRegistry,
    r: DocView,
    results: Seq<DocView>,
    batch_size: usize,
    ns: Seq<char>,
    now: u64,
) -> bool {
    if results.len() <= batch_size {
        &&& r == cursor_response("firstBatch"@, results, 0, ns)
        &&& after.cursors@ == before.cursors@
        &&& after.next_id == before.next_id
    } else if before.next_id == u64::MAX {
        &&& r == error_response(CODE_INTERNAL_ERROR, "InternalError"@, "too many cursors"@)
        &&& after.cursors@ == before.cursors@
        &&& after.next_id == before.next_id
    } else {
        &&& r == cursor_response(
            "firstBatch"@,
            results.take(batch_size as int),
            before.next_id,
            ns,
        )
        &&& before.next_id != 0
        &&& !is_open(before.cursors@, before.next_id)
        &&& after.next_id == before.next_id + 1
        &&& after.cursors@.len() == before.cursors@.len() + 1
        &&& after.cursors@.drop_last() == before.cursors@
        &&& after.cursors@.last().id == before.next_id
        &&& after.cursors@.last().namespace@ == ns
        &&& after.cursors@.last().batch_size == batch_size
        &&& after.cursors@.last().last_used == now
        &&& docs_view(after.cursors@.last().remaining@) == results.skip(batch_size as int)
    }
}

/// The count under `key`.
pub fn get_count_arg(doc: &Document, key: &str, default: usize) -> (r: Option<usize>)
    ensures
        r == count_arg(doc@, key@, default),
{
    match doc.get(key) {
        None => Some(default),
        Some(Bson::Int32(n)) => {
            if *n >= 0 {
                Some(*n as usize)
            } else {
                None
            }
        },
        Some(Bson::Int64(n)) => {
            if *n >= 0 && (*n as u64) <= (usize::MAX as u64) {
                Some(*n as usize)
            } else {
                None
            }
        },
        Some(_) => None,
    }
}

/// The model of a document that may be missing.
pub open spec fn opt_ref_view(d: Option<&Document>) -> Option<DocView> {
    match d {
        Some(x) => Some(x@),
        None => None,
    }
}

/// The document under `key`.
pub fn get_doc_arg<'a>(doc: &'a Document, key: &str) -> (r: Result<Option<&'a Document>, ()>)
    ensures
        match r {
            Ok(d) => doc_arg(doc@, key@) == Some(opt_ref_view(d)),
            Err(_) => doc_arg(doc@, key@).is_none(),
        },
{
    match doc.get(key) {
        None => Ok(None),
        Some(Bson::Document(d)) => {
            proof {
                lemma_view_document(*d);
            }
            Ok(Some(d))
        },
        Some(_) => Err(()),
    }
}

/// `<database>.<collection>`.
pub fn make_namespace(db: &str, coll: &str) -> (r: String)
    ensures
        r@ == namespace(db@, coll@),
{
    let mut s = concat(db, ".");
    s.append(coll);
    s
}

/// The words that describe why a query cannot be run.
pub fn describe_storage_error(e: StorageError) -> (r: &'static str)
    ensures
        r@ == storage_error_text(e),
{
    match e {
        StorageError::Filter(_) => "cannot evaluate the filter",
        StorageError::Update(_) => "cannot apply the update",
        StorageError::Aggregation(AggregationError::Filter(_)) => "cannot evaluate the filter",
        StorageError::Aggregation(AggregationError::NotImplemented) => "stage not implemented",
        StorageError::Aggregation(AggregationError::UnknownStage) => "unknown pipeline stage",
        StorageError::Aggregation(AggregationError::MixedProjection) => "projection mixes inclusion and exclusion",
        StorageError::Aggregation(_) => "invalid stage argument",
    }
}

/// The stage documents that the items of a pipeline are; `None` where an
/// item is no document.
pub open spec fn stage_documents(items: Seq<BsonView>, n: int) -> Option<Seq<DocView>>
    decreases n,
{
    if n <= 0 || n > items.len() {
        Some(Seq::empty())
    } else {
        match (stage_documents(items, n - 1), items[n - 1]) {
            (Some(s), BsonView::Document(d)) => Some(s.push(d)),
            _ => None,
        }
    }
}

/// Copies of the stage documents of a pipeline.
pub fn collect_stages(items: &Vec<Bson>) -> (r: Option<Vec<Document>>)
    ensures
        match r {
            Some(s) => stage_documents(values_view(items@), items@.len() as int) == Some(
                docs_view(s@),
            ),
            None => stage_documents(values_view(items@), items@.len() as int).is_none(),
        },
{
    let ghost iv = values_view(items@);
    let mut out: Vec<Document> = Vec::new();
    let mut i: usize = 0;
    assert(docs_view(out@) =~= Seq::<DocView>::empty());
    while i < items.len()
        invariant
            i <= items.len(),
            iv == values_view(items@),
            stage_documents(iv, i as int) == Some(docs_view(out@)),
        decreases items.len() - i,
    {
        match &items[i] {
            Bson::Document(d) => {
                proof {
                    lemma_view_document(*d);
                }
                let ghost before = docs_view(out@);
                out.push(d.clone_document());
                assert(docs_view(out@) =~= before.push(d@));
            },
            _ => {
                proof {
                    lemma_stages_fail(iv, i + 1, items@.len() as int);
                }
                return None;
            },
        }
        i = i + 1;
    }
    Some(out)
}

/// A pipeline with an item that is no document has no stage documents.
proof fn lemma_stages_fail(items: Seq<BsonView>, k: int, n: int)
    requires
        1 <= k <= n <= items.len(),
        stage_documents(items, k).is_none(),
    ensures
        stage_documents(items, n).is_none(),
    decreases n - k,
{
    if k < n {
        lemma_stages_fail(items, k, n - 1);
    }
}

/// The arguments of an `aggregate` command: the collection, the stage
/// documents and the size of the first batch; `None` where one of them
/// cannot be used.
pub open spec fn aggregate_args(doc: DocView) -> Option<(Seq<char>, Seq<DocView>, usize)> {
    match (lookup(doc, "aggregate"@), lookup(doc, "pipeline"@), doc_arg(doc, "cursor"@)) {
        (Some(BsonView::String(coll)), Some(BsonView::Array(items)), Some(cursor)) => {
            let batch = match cursor {
                Some(c) => count_arg(c, "batchSize"@, DEFAULT_BATCH_SIZE),
                None => Some(DEFAULT_BATCH_SIZE),
            };
            match (stage_documents(items, items.len() as int), batch) {
                (Some(stages), Some(b)) => Some((coll, stages, b)),
                _ => None,
            }
        },
        _ => None,
    }
}


/// What serving `find` means: the state afterwards and the response.
pub open spec fn served_find(
    before: CommandProcessor,
    after: CommandProcessor,
    doc: DocView,
    db: Seq<char>,
    now: u64,
    r: DocView,
) -> bool {
    &&& after.indexes == before.indexes
    &&& after.store == before.store
    &&& after.ids == before.ids
    &&& match find_args(doc) {
        None => r == failed_to_parse("invalid find command"@) && after.cursors == before.cursors,
        Some(a) => match found(
            documents_of(before.store.collections@, db, a.collection),
            a.filter,
            a.sort,
            a.skip,
            a.limit,
            a.projection,
        ) {
            Err(e) => r == bad_value(storage_error_text(e)) && after.cursors == before.cursors,
            Ok(results) => batch_reply(
                before.cursors,
                after.cursors,
                r,
                results,
                a.batch_size,
                namespace(db, a.collection),
                now,
            ),
        },
    }
}

/// What serving `aggregate` means: the state afterwards and the response.
pub open spec fn served_aggregate(
    before: CommandProcessor,
    after: CommandProcessor,
    doc: DocView,
    db: Seq<char>,
    now: u64,
    r: DocView,
) -> bool {
    &&& after.indexes == before.indexes
    &&& after.store == before.store
    &&& after.ids == before.ids
    &&& match aggregate_args(doc) {
        None => r == failed_to_parse("invalid aggregate command"@) && after.cursors
            == before.cursors,
        Some((coll, stages, batch)) => match run_pipeline(
            stages,
            documents_of(before.store.collections@, db, coll),
            0,
        ) {
            Err(e) => r == bad_value(storage_error_text(StorageError::Aggregation(e)))
                && after.cursors == before.cursors,
            Ok(results) => batch_reply(
                before.cursors,
                after.cursors,
                r,
                results,
                batch,
                namespace(db, coll),
                now,
            ),
        },
    }
}

/// The response to `count`, sent under the name `command`.
pub open spec fn count_reply(p: CommandProcessor, doc: DocView, db: Seq<char>, command: Seq<char>) -> DocView {
    match (lookup(doc, command), doc_arg(doc, "query"@)) {
        (Some(BsonView::String(coll)), Some(q)) => match counted(
            documents_of(p.store.collections@, db, coll),
            match q {
                Some(f) => f,
                None => Seq::empty(),
            },
        ) {
            Ok(n) => seq![
                ("n"@, crate::aggregation::count_value(n)),
                ("ok"@, BsonView::Double(crate::mongodb_commands::OK_ONE)),
            ],
            Err(e) => bad_value(storage_error_text(e)),
        },
        _ => failed_to_parse("invalid count command"@),
    }
}

/// What serving `getMore` means: the state afterwards and the response.
/// The cursor hands out its next documents, as many as the command asks
/// for or as its own batch size says. Where documents are left it stays
/// open with the rest; where none is left it is closed and the response
/// carries the id zero.
pub open spec fn served_get_more(
    before: CommandProcessor,
    after: CommandProcessor,
    doc: DocView,
    now: u64,
    r: DocView,
) -> bool {
    &&& after.indexes == before.indexes
    &&& after.store == before.store
    &&& after.ids == before.ids
    &&& after.cursors.next_id == before.cursors.next_id
    &&& match (lookup(doc, "getMore"@), count_arg(doc, "batchSize"@, 0)) {
        (Some(BsonView::Int64(id)), Some(batch)) => {
            let cid = id as u64;
            if !is_open(before.cursors.cursors@, cid) {
                &&& r == error_response(
                    CODE_CURSOR_NOT_FOUND,
                    "CursorNotFound"@,
                    "cursor not found"@,
                )
                &&& after.cursors.cursors@ == before.cursors.cursors@
            } else {
                let i = crate::cursor::cursor_index(before.cursors.cursors@, cid);
                let c = before.cursors.cursors@[i];
                let size = if batch == 0 {
                    crate::cursor::own_batch_size(c)
                } else {
                    batch
                };
                let left = docs_view(c.remaining@);
                &&& r == cursor_response(
                    "nextBatch"@,
                    left.take(batch_len(left.len(), size) as int),
                    if left.len() <= size {
                        0
                    } else {
                        cid
                    },
                    c.namespace@,
                )
                &&& left.len() <= size ==> !is_open(after.cursors.cursors@, cid)
                    && after.cursors.cursors@ == before.cursors.cursors@.remove(i)
                &&& left.len() > size ==> {
                    &&& is_open(after.cursors.cursors@, cid)
                    &&& after.cursors.cursors@.len() == before.cursors.cursors@.len()
                    &&& forall|j: int|
                        0 <= j < before.cursors.cursors@.len() && j != i ==> after.cursors.cursors@[j]
                            == before.cursors.cursors@[j]
                    &&& after.cursors.cursors@[i].id == cid
                    &&& after.cursors.cursors@[i].namespace@ == c.namespace@
                    &&& after.cursors.cursors@[i].batch_size == c.batch_size
                    &&& after.cursors.cursors@[i].last_used == now
                    &&& docs_view(after.cursors.cursors@[i].remaining@) == left.skip(size as int)
                }
            }
        },
        _ => r == failed_to_parse("invalid getMore command"@) && after.cursors == before.cursors,
    }
}

impl CommandProcessor {
    /// The state is consistent: so are the cursors, and the counter of the
    /// object ids is within its range.
    pub open spec fn wf(&self) -> bool {
        self.cursors.wf() && self.ids.counter < 0x1000000
    }

    /// A processor without collections and cursors.
    pub fn new(default_database: &str, ids: ObjectIdGenerator, connection_id: i32) -> (r: Self)
        requires
            ids.counter < 0x1000000,
        ensures
            r.wf(),
            r.store.collections@.len() == 0,
            r.cursors.cursors@.len() == 0,
            r.cursors.next_id == 1,
            r.ids == ids,
            r.default_database@ == default_database@,
            r.connection_id == connection_id,
            r.indexes@.len() == 0,
    {
        CommandProcessor {
            store: Store::new(),
            cursors: CursorRegistry::new(),
            ids,
            default_database: default_database.to_owned(),
            connection_id,
            indexes: IndexManager::new(),
        }
    }

    /// Hands out the first batch of the documents of a cursor command and
    /// keeps the rest under a new cursor.
    pub fn first_batch(&mut self, results: Vec<Document>, batch_size: usize, ns: String, now: u64) -> (r:
        Document)
        requires
            old(self).wf(),
        ensures
            final(self).wf(),
            final(self).store == old(self).store,
            final(self).ids == old(self).ids,
            final(self).indexes == old(self).indexes,
            final(self).default_database == old(self).default_database,
            final(self).connection_id == old(self).connection_id,
            batch_reply(
                old(self).cursors,
                final(self).cursors,
                r@,
                docs_view(results@),
                batch_size,
                ns@,
                now,
            ),
    {
        let ghost rv = docs_view(results@);
        match self.cursors.open(ns, results, batch_size, now) {
            Ok(batch) => {
                proof {
                    if rv.len() <= batch_size {
                        assert(rv.take(rv.len() as int) =~= rv);
                    }
                }
                MongoDBCommandRegistry::build_cursor_response_with_namespace(
                    &batch.documents,
                    batch.cursor_id,
                    batch.namespace.as_str(),
                )
            },
            Err(_) => MongoDBCommandRegistry::build_error_response(
                CODE_INTERNAL_ERROR,
                "InternalError",
                "too many cursors",
            ),
        }
    }

    /// Serves `find`: the documents of the collection that the query
    /// returns, the first batch in the response and the rest under a
    /// cursor. The response names the cursor, or zero where nothing is
    /// left, and the namespace `<database>.<collection>`.
    pub fn handle_find(&mut self, doc: &Document, db: &str, now: u64) -> (r: Document)
        requires
            old(self).wf(),
        ensures
            final(self).wf(),
            final(self).default_database == old(self).default_database,
            final(self).connection_id == old(self).connection_id,
            served_find(*old(self), *final(self), doc@, db@, now, r@),
    {
        let collection = match doc.get("find") {
            Some(Bson::String(c)) => c.as_str(),
            _ => {
                return Self::parse_failure("invalid find command");
            },
        };
        let filter = get_doc_arg(doc, "filter");
        let projection = get_doc_arg(doc, "projection");
        let sort = get_doc_arg(doc, "sort");
        let skip = get_count_arg(doc, "skip", 0);
        let limit = get_count_arg(doc, "limit", 0);
        let batch = get_count_arg(doc, "batchSize", DEFAULT_BATCH_SIZE);
        let (filter, projection, sort, skip, limit, batch) = match (
            filter,
            projection,
            sort,
            skip,
            limit,
            batch,
        ) {
            (Ok(f), Ok(p), Ok(s), Some(k), Some(l), Some(b)) => (f, p, s, k, l, b),
            _ => {
                return Self::parse_failure("invalid find command");
            },
        };
        let empty = Document::new();
        let filter: &Document = match filter {
            Some(f) => f,
            None => &empty,
        };
        let limit = if limit == 0 {
            None
        } else {
            Some(limit)
        };
        let none: Vec<Document> = Vec::new();
        let docs: &Vec<Document> = match self.store.find_collection(db, collection) {
            Some(i) => self.store.documents(i),
            None => {
                assert(docs_view(none@) =~= Seq::<DocView>::empty());
                &none
            },
        };
        let results = match find_documents(docs, filter, sort, skip, limit, projection) {
            Ok(r) => r,
            Err(e) => {
                return Self::query_failure(e);
            },
        };
        let ns = make_namespace(db, collection);
        self.first_batch(results, batch, ns, now)
    }

    /// The response to a command whose arguments cannot be used.
    pub fn parse_failure(message: &str) -> (r: Document)
        ensures
            r@ == failed_to_parse(message@),
    {
        MongoDBCommandRegistry::build_error_response(CODE_FAILED_TO_PARSE, "FailedToParse", message)
    }

    /// The response to a query that cannot be run.
    pub fn query_failure(e: StorageError) -> (r: Document)
        ensures
            r@ == bad_value(storage_error_text(e)),
    {
        MongoDBCommandRegistry::build_error_response(
            CODE_BAD_VALUE,
            "BadValue",
            describe_storage_error(e),
        )
    }

    /// Serves `aggregate`: what the pipeline makes of the documents of the
    /// collection, the first batch in the response and the rest under a
    /// cursor.
    pub fn handle_aggregate(&mut self, doc: &Document, db: &str, now: u64) -> (r: Document)
        requires
            old(self).wf(),
        ensures
            final(self).wf(),
            final(self).default_database == old(self).default_database,
            final(self).connection_id == old(self).connection_id,
            served_aggregate(*old(self), *final(self), doc@, db@, now, r@),
    {
        let collection = match doc.get("aggregate") {
            Some(Bson::String(c)) => c.as_str(),
            _ => {
                return Self::parse_failure("invalid aggregate command");
            },
        };
        let items = match doc.get("pipeline") {
            Some(Bson::Array(items)) => {
                proof {
                    lemma_view_array(*items);
                }
                items
            },
            _ => {
                return Self::parse_failure("invalid aggregate command");
            },
        };
        let cursor = match get_doc_arg(doc, "cursor") {
            Ok(c) => c,
            Err(_) => {
                return Self::parse_failure("invalid aggregate command");
            },
        };
        let stages = collect_stages(items);
        let batch = match cursor {
            Some(c) => get_count_arg(c, "batchSize", DEFAULT_BATCH_SIZE),
            None => Some(DEFAULT_BATCH_SIZE),
        };
        let (stages, batch) = match (stages, batch) {
            (Some(s), Some(b)) => (s, b),
            _ => {
                return Self::parse_failure("invalid aggregate command");
            },
        };
        let none: Vec<Document> = Vec::new();
        let docs: &Vec<Document> = match self.store.find_collection(db, collection) {
            Some(i) => self.store.documents(i),
            None => {
                assert(docs_view(none@) =~= Seq::<DocView>::empty());
                &none
            },
        };
        let engine = AggregationEngine::new();
        let results = match engine.process_pipeline_with_input(docs, &stages) {
            Ok(r) => r,
            Err(e) => {
                return Self::query_failure(StorageError::Aggregation(e));
            },
        };
        let ns = make_namespace(db, collection);
        self.first_batch(results, batch, ns, now)
    }

    /// Serves `count`: the number of documents of the collection that the
    /// filter under `query` selects.
    pub fn handle_count(&self, doc: &Document, db: &str, command: &str) -> (r: Document)
        ensures
            r@ == count_reply(*self, doc@, db@, command@),
    {
        let collection = match doc.get(command) {
            Some(Bson::String(c)) => c.as_str(),
            _ => {
                return Self::parse_failure("invalid count command");
            },
        };
        let query = match get_doc_arg(doc, "query") {
            Ok(q) => q,
            Err(_) => {
                return Self::parse_failure("invalid count command");
            },
        };
        let empty = Document::new();
        let filter: &Document = match query {
            Some(f) => f,
            None => &empty,
        };
        let none: Vec<Document> = Vec::new();
        let docs: &Vec<Document> = match self.store.find_collection(db, collection) {
            Some(i) => self.store.documents(i),
            None => {
                assert(docs_view(none@) =~= Seq::<DocView>::empty());
                &none
            },
        };
        match count_documents(docs, filter) {
            Ok(n) => {
                let mut out = Document::new();
                out.push("n".to_owned(), crate::writes::count_to_bson(n));
                out.push("ok".to_owned(), Bson::Double(crate::mongodb_commands::OK_ONE));
                assert(out@ =~= seq![
                    ("n"@, crate::aggregation::count_value(n as nat)),
                    ("ok"@, BsonView::Double(crate::mongodb_commands::OK_ONE)),
                ]);
                out
            },
            Err(e) => Self::query_failure(e),
        }
    }

    /// Serves `getMore`: the next batch of a cursor. The response names
    /// the cursor, or zero where this was its last batch and the cursor is
    /// closed. A cursor that is not open gives the error "cursor not
    /// found".
    pub fn handle_get_more(&mut self, doc: &Document, now: u64) -> (r: Document)
        requires
            old(self).wf(),
        ensures
            final(self).wf(),
            final(self).default_database == old(self).default_database,
            final(self).connection_id == old(self).connection_id,
            served_get_more(*old(self), *final(self), doc@, now, r@),
    {
        let id = match doc.get("getMore") {
            Some(Bson::Int64(id)) => #[verifier::truncate] (*id as u64),
            _ => {
                return Self::parse_failure("invalid getMore command");
            },
        };
        let batch = match get_count_arg(doc, "batchSize", 0) {
            Some(b) => b,
            None => {
                return Self::parse_failure("invalid getMore command");
            },
        };
        let size = if batch == 0 {
            None
        } else {
            Some(batch)
        };
        let ghost before = self.cursors.cursors@;
        match self.cursors.get_more(id, size, now) {
            Ok(b) => {
                proof {
                    crate::cursor::lemma_cursor_index(self.cursors.cursors@, id);
                    if b.cursor_id != 0 {
                        let i = crate::cursor::cursor_index(before, id);
                        crate::cursor::lemma_cursor_index(before, id);
                        assert(self.cursors.cursors@[i].id == id);
                    }
                }
                MongoDBCommandRegistry::build_batch_response(
                    "nextBatch",
                    &b.documents,
                    b.cursor_id,
                    b.namespace.as_str(),
                )
            },
            Err(_) => MongoDBCommandRegistry::build_error_response(
                CODE_CURSOR_NOT_FOUND,
                "CursorNotFound",
                "cursor not found",
            ),
        }
    }
}

/// Whether the writes of a batch stop at the first one that fails:
/// `true` where the command does not say; `None` where what it says is no
/// boolean.
pub open spec fn ordered_arg(doc: DocView) -> Option<bool> {
    match lookup(doc, "ordered"@) {
        None => Some(true),
        Some(BsonView::Boolean(b)) => Some(b),
        Some(_) => None,
    }
}

/// The collection and the writes of a write command sent under the name
/// `command`, whose writes stand under `list`; `None` where one of them
/// cannot be used.
pub open spec fn write_args(doc: DocView, command: Seq<char>, list: Seq<char>) -> Option<
    (Seq<char>, Seq<BsonView>, bool),
> {
    match (lookup(doc, command), lookup(doc, list), ordered_arg(doc)) {
        (Some(BsonView::String(coll)), Some(BsonView::Array(items)), Some(ordered)) => Some(
            (coll, items, ordered),
        ),
        _ => None,
    }
}

/// The batch that the writes of a command start from.
pub open spec fn batch_start(p: CommandProcessor, db: Seq<char>, coll: Seq<char>) -> BatchState {
    BatchState {
        docs: documents_of(p.store.collections@, db, coll),
        ids: p.ids,
        summary: no_writes(),
    }
}

/// What a write command leaves behind once its batch has run: the
/// documents of its collection, the generator of object ids, and every
/// other collection and the cursors as they were.
pub open spec fn batch_stored(
    before: CommandProcessor,
    after: CommandProcessor,
    db: Seq<char>,
    coll: Seq<char>,
    end: BatchState,
) -> bool {
    &&& documents_of(after.store.collections@, db, coll) == end.docs
    &&& after.ids == end.ids
    &&& after.cursors == before.cursors
    &&& after.indexes == before.indexes
    &&& others_unchanged(before.store.collections@, after.store.collections@, db, coll)
}

/// What serving `insert` means: the state afterwards and the response.
pub open spec fn served_insert(
    before: CommandProcessor,
    after: CommandProcessor,
    doc: DocView,
    db: Seq<char>,
    r: DocView,
) -> bool {
    match write_args(doc, "insert"@, "documents"@) {
        None => r == failed_to_parse("invalid insert command"@) && after == before,
        Some((coll, items, ordered)) => {
            let end = insert_from(items, ordered, 0, batch_start(before, db, coll));
            &&& r == write_response(end.summary, false)
            &&& has_collection(after.store.collections@, db, coll)
            &&& batch_stored(before, after, db, coll, end)
        },
    }
}

/// What serving `update` means: the state afterwards and the response.
pub open spec fn served_update(
    before: CommandProcessor,
    after: CommandProcessor,
    doc: DocView,
    db: Seq<char>,
    r: DocView,
) -> bool {
    match write_args(doc, "update"@, "updates"@) {
        None => r == failed_to_parse("invalid update command"@) && after == before,
        Some((coll, items, ordered)) => {
            let end = update_batch_from(items, ordered, 0, batch_start(before, db, coll));
            &&& r == write_response(end.summary, true)
            &&& has_collection(after.store.collections@, db, coll)
            &&& batch_stored(before, after, db, coll, end)
        },
    }
}

/// What serving `delete` means: the state afterwards and the response.
pub open spec fn served_delete(
    before: CommandProcessor,
    after: CommandProcessor,
    doc: DocView,
    db: Seq<char>,
    r: DocView,
) -> bool {
    match write_args(doc, "delete"@, "deletes"@) {
        None => r == failed_to_parse("invalid delete command"@) && after == before,
        Some((coll, items, ordered)) => {
            let end = delete_batch_from(items, ordered, 0, batch_start(before, db, coll));
            &&& r == write_response(end.summary, false)
            &&& batch_stored(before, after, db, coll, end)
        },
    }
}

/// The ids that the items of a list name: each item a 64-bit integer;
/// `None` where an item is something else.
pub open spec fn cursor_ids(items: Seq<BsonView>, n: int) -> Option<Seq<u64>>
    decreases n,
{
    if n <= 0 || n > items.len() {
        Some(Seq::empty())
    } else {
        match (cursor_ids(items, n - 1), items[n - 1]) {
            (Some(s), BsonView::Int64(id)) => Some(s.push(id as u64)),
            _ => None,
        }
    }
}

/// Ids as the items of an array.
pub open spec fn id_items(ids: Seq<u64>) -> Seq<BsonView> {
    Seq::new(ids.len(), |i: int| BsonView::Int64(ids[i] as i64))
}

/// The response to `killCursors`.
pub open spec fn kill_reply(killed: Seq<u64>, missing: Seq<u64>) -> DocView {
    seq![
        ("cursorsKilled"@, BsonView::Array(id_items(killed))),
        ("cursorsNotFound"@, BsonView::Array(id_items(missing))),
        ("cursorsAlive"@, BsonView::Array(Seq::empty())),
        ("cursorsUnknown"@, BsonView::Array(Seq::empty())),
        ("ok"@, BsonView::Double(OK_ONE)),
    ]
}

/// What serving `killCursors` means: the state afterwards and the
/// response.
pub open spec fn served_kill_cursors(
    before: CommandProcessor,
    after: CommandProcessor,
    doc: DocView,
    r: DocView,
) -> bool {
    &&& after.indexes == before.indexes
    &&& after.store == before.store
    &&& after.ids == before.ids
    &&& after.cursors.next_id == before.cursors.next_id
    &&& match lookup(doc, "cursors"@) {
        Some(BsonView::Array(items)) => match cursor_ids(items, items.len() as int) {
            Some(ids) => {
                let (left, killed, missing) = killed_from(
                    before.cursors.cursors@,
                    ids,
                    0,
                    Seq::empty(),
                    Seq::empty(),
                );
                after.cursors.cursors@ == left && r == kill_reply(killed, missing)
            },
            None => r == failed_to_parse("invalid killCursors command"@) && after.cursors
                == before.cursors,
        },
        _ => r == failed_to_parse("invalid killCursors command"@) && after.cursors
            == before.cursors,
    }
}

/// The description of a collection in the response to `listCollections`.
pub open spec fn collection_info(name: Seq<char>) -> DocView {
    seq![("name"@, BsonView::String(name)), ("type"@, BsonView::String("collection"@))]
}

/// The response to `listCollections`.
pub open spec fn list_collections_reply(p: CommandProcessor, db: Seq<char>) -> DocView {
    let names = names_in(p.store.collections@, db, p.store.collections@.len() as int);
    cursor_response(
        "firstBatch"@,
        Seq::new(names.len(), |i: int| collection_info(names[i])),
        0,
        db + ".$cmd.listCollections"@,
    )
}

/// The response to `listDatabases`.
pub open spec fn list_databases_reply(p: CommandProcessor) -> DocView {
    let names = databases_in(p.store.collections@, p.store.collections@.len() as int);
    seq![
        (
            "databases"@,
            BsonView::Array(
                Seq::new(
                    names.len(),
                    |i: int| BsonView::Document(database_info(names[i], 0, false)),
                ),
            ),
        ),
        ("totalSize"@, BsonView::Int64(0)),
        ("ok"@, BsonView::Double(OK_ONE)),
    ]
}

/// What serving a command that names a collection to make means.
pub open spec fn served_create(
    before: CommandProcessor,
    after: CommandProcessor,
    doc: DocView,
    db: Seq<char>,
    r: DocView,
) -> bool {
    &&& after.indexes == before.indexes
    &&& after.ids == before.ids
    &&& after.cursors == before.cursors
    &&& match lookup(doc, "create"@) {
        Some(BsonView::String(coll)) => {
            &&& r == success_response()
            &&& has_collection(after.store.collections@, db, coll)
            &&& has_collection(before.store.collections@, db, coll) ==> after.store.collections@
                == before.store.collections@
            &&& !has_collection(before.store.collections@, db, coll) ==> {
                &&& after.store.collections@.drop_last() == before.store.collections@
                &&& after.store.collections@.len() == before.store.collections@.len() + 1
                &&& after.store.collections@.last().documents@.len() == 0
            }
        },
        _ => r == failed_to_parse("invalid create command"@) && after.store == before.store,
    }
}

/// What serving a command that names a collection to drop means.
pub open spec fn served_drop(
    before: CommandProcessor,
    after: CommandProcessor,
    doc: DocView,
    db: Seq<char>,
    r: DocView,
) -> bool {
    &&& after.ids == before.ids
    &&& after.cursors == before.cursors
    &&& match lookup(doc, "drop"@) {
        Some(BsonView::String(coll)) => {
            &&& r == success_response()
            &&& after.indexes@ == without_collection(
                before.indexes@,
                db,
                coll,
                before.indexes@.len() as int,
            )
            &&& has_collection(before.store.collections@, db, coll) ==> after.store.collections@
                == before.store.collections@.remove(
                crate::store::collection_index(before.store.collections@, db, coll),
            )
            &&& !has_collection(before.store.collections@, db, coll) ==> after.store.collections@
                == before.store.collections@
        },
        _ => r == failed_to_parse("invalid drop command"@) && after.store == before.store
            && after.indexes == before.indexes,
    }
}

/// The database that a command addresses: the string under `$db`, or the
/// default database.
pub open spec fn database_of(doc: DocView, default: Seq<char>) -> Seq<char> {
    match lookup(doc, "$db"@) {
        Some(BsonView::String(d)) => d,
        _ => default,
    }
}

/// The response to a command that is no command.
pub open spec fn unknown_command(name: Seq<char>) -> DocView {
    error_response(CODE_COMMAND_NOT_FOUND, "CommandNotFound"@, "no such command: "@ + name)
}

/// The response to a command that is known and not served.
pub open spec fn unserved_command(name: Seq<char>) -> DocView {
    error_response(CODE_NOT_IMPLEMENTED, "NotImplemented"@, "command not implemented: "@ + name)
}

/// Whether a command of this kind writes to a collection.
pub open spec fn writes_collection(kind: CommandKind) -> bool {
    kind == CommandKind::Insert || kind == CommandKind::Update || kind == CommandKind::Delete
        || kind == CommandKind::Create || kind == CommandKind::Drop
}

/// The database and the collection that a command writes to, with the
/// kind of the command: the collection is what the first entry names, the
/// database what `$db` names, or else `default`. `None` for a command that
/// does not write, and for one that names no collection.
pub open spec fn written_by(doc: DocView, default: Seq<char>) -> Option<
    (Seq<char>, Seq<char>, CommandKind),
> {
    if doc.len() == 0 {
        None
    } else {
        match (command_kind(doc[0].0), doc[0].1) {
            (Some(kind), BsonView::String(coll)) => if writes_collection(kind) {
                Some((database_of(doc, default), coll, kind))
            } else {
                None
            },
            _ => None,
        }
    }
}

/// What serving a command means: the state afterwards and the response.
///
/// The name of the command is the name of the first entry of its document.
/// A document without entries and a name that is no command are answered
/// with "command not found"; a command that is known and not served with
/// "not implemented". Neither changes anything.
pub open spec fn served(
    before: CommandProcessor,
    after: CommandProcessor,
    doc: DocView,
    now: u64,
    r: DocView,
) -> bool {
    if doc.len() == 0 {
        r == unknown_command(Seq::empty()) && after == before
    } else {
        let name = doc[0].0;
        let db = database_of(doc, before.default_database@);
        match command_kind(name) {
            None => r == unknown_command(name) && after == before,
            Some(CommandKind::NotImplemented) => r == unserved_command(name) && after == before,
            Some(CommandKind::CreateIndexes) => crate::index_commands::served_create_indexes(
                before,
                after,
                doc,
                db,
                r,
            ),
            Some(CommandKind::DropIndexes) => crate::index_commands::served_drop_indexes(
                before,
                after,
                doc,
                db,
                r,
            ),
            Some(CommandKind::ListIndexes) => r == crate::index_commands::list_indexes_reply(
                before,
                doc,
                db,
            ) && after == before,
            Some(CommandKind::Hello) => r == hello_response(now as i64, before.connection_id)
                && after == before,
            Some(CommandKind::Ping) => r == success_response() && after == before,
            Some(CommandKind::BuildInfo) => r == version_info() && after == before,
            Some(CommandKind::Find) => served_find(before, after, doc, db, now, r),
            Some(CommandKind::Aggregate) => served_aggregate(before, after, doc, db, now, r),
            Some(CommandKind::Count) => r == count_reply(before, doc, db, name) && after == before,
            Some(CommandKind::GetMore) => served_get_more(before, after, doc, now, r),
            Some(CommandKind::KillCursors) => served_kill_cursors(before, after, doc, r),
            Some(CommandKind::Insert) => served_insert(before, after, doc, db, r),
            Some(CommandKind::Update) => served_update(before, after, doc, db, r),
            Some(CommandKind::Delete) => served_delete(before, after, doc, db, r),
            Some(CommandKind::Create) => served_create(before, after, doc, db, r),
            Some(CommandKind::Drop) => served_drop(before, after, doc, db, r),
            Some(CommandKind::ListCollections) => r == list_collections_reply(before, db) && after
                == before,
            Some(CommandKind::ListDatabases) => r == list_databases_reply(before) && after
                == before,
        }
    }
}

/// Whether the writes of a batch stop at the first one that fails.
pub fn get_ordered_arg(doc: &Document) -> (r: Option<bool>)
    ensures
        r == ordered_arg(doc@),
{
    match doc.get("ordered") {
        None => Some(true),
        Some(Bson::Boolean(b)) => Some(*b),
        Some(_) => None,
    }
}

/// The collection and the writes of a write command.
pub fn get_write_args<'a>(doc: &'a Document, command: &str, list: &str) -> (r: Option<
    (&'a str, &'a Vec<Bson>, bool),
>)
    ensures
        match r {
            Some((coll, items, ordered)) => write_args(doc@, command@, list@) == Some(
                (coll@, values_view(items@), ordered),
            ),
            None => write_args(doc@, command@, list@).is_none(),
        },
{
    let coll = match doc.get(command) {
        Some(Bson::String(c)) => c.as_str(),
        _ => {
            return None;
        },
    };
    let items = match doc.get(list) {
        Some(Bson::Array(items)) => {
            proof {
                lemma_view_array(*items);
            }
            items
        },
        _ => {
            return None;
        },
    };
    match get_ordered_arg(doc) {
        Some(ordered) => Some((coll, items, ordered)),
        None => None,
    }
}

/// The ids that the items of a list name.
pub fn collect_cursor_ids(items: &Vec<Bson>) -> (r: Option<Vec<u64>>)
    ensures
        match r {
            Some(ids) => cursor_ids(values_view(items@), items@.len() as int) == Some(ids@),
            None => cursor_ids(values_view(items@), items@.len() as int).is_none(),
        },
{
    let ghost iv = values_view(items@);
    let mut out: Vec<u64> = Vec::new();
    let mut i: usize = 0;
    assert(out@ =~= Seq::<u64>::empty());
    while i < items.len()
        invariant
            i <= items.len(),
            iv == values_view(items@),
            cursor_ids(iv, i as int) == Some(out@),
        decreases items.len() - i,
    {
        match &items[i] {
            Bson::Int64(id) => {
                out.push(#[verifier::truncate] (*id as u64));
            },
            _ => {
                proof {
                    lemma_ids_fail(iv, i + 1, items@.len() as int);
                }
                return None;
            },
        }
        i = i + 1;
    }
    Some(out)
}

/// A list with an item that is no id names no ids.
proof fn lemma_ids_fail(items: Seq<BsonView>, k: int, n: int)
    requires
        1 <= k <= n <= items.len(),
        cursor_ids(items, k).is_none(),
    ensures
        cursor_ids(items, n).is_none(),
    decreases n - k,
{
    if k < n {
        lemma_ids_fail(items, k, n - 1);
    }
}

/// Ids as an array.
pub fn ids_to_array(ids: &Vec<u64>) -> (r: Bson)
    ensures
        r@ == BsonView::Array(id_items(ids@)),
{
    let mut out: Vec<Bson> = Vec::new();
    let mut i: usize = 0;
    while i < ids.len()
        invariant
            i <= ids.len(),
            out@.len() == i,
            forall|j: int| 0 <= j < i ==> out@[j]@ == BsonView::Int64(ids@[j] as i64),
        decreases ids.len() - i,
    {
        out.push(Bson::Int64(#[verifier::truncate] (ids[i] as i64)));
        i = i + 1;
    }
    proof {
        lemma_view_array(out);
        assert(values_view(out@) =~= id_items(ids@));
    }
    Bson::Array(out)
}

impl CommandProcessor {
    /// Serves `insert`: the documents under `documents` are stored at the
    /// end of the collection, which is made where it does not exist.
    pub fn handle_insert(&mut self, doc: &Document, db: &str) -> (r: Document)
        requires
            old(self).wf(),
        ensures
            final(self).wf(),
            final(self).default_database == old(self).default_database,
            final(self).connection_id == old(self).connection_id,
            served_insert(*old(self), *final(self), doc@, db@, r@),
    {
        let (coll, items, ordered) = match get_write_args(doc, "insert", "documents") {
            Some(a) => a,
            None => {
                return Self::parse_failure("invalid insert command");
            },
        };
        let ghost before = self.store.collections@;
        let mut docs = self.store.take_collection(db, coll);
        let ghost mid = self.store.collections@;
        let out = apply_inserts(&mut docs, items, ordered, &mut self.ids);
        self.store.replace_documents(db, coll, docs);
        proof {
            lemma_others_unchanged(before, mid, self.store.collections@, db@, coll@);
        }
        build_write_response(&out, false)
    }

    /// Serves `update`: every update under `updates` is applied to the
    /// collection, which is made where it does not exist.
    pub fn handle_update(&mut self, doc: &Document, db: &str) -> (r: Document)
        requires
            old(self).wf(),
        ensures
            final(self).wf(),
            final(self).default_database == old(self).default_database,
            final(self).connection_id == old(self).connection_id,
            served_update(*old(self), *final(self), doc@, db@, r@),
    {
        let (coll, items, ordered) = match get_write_args(doc, "update", "updates") {
            Some(a) => a,
            None => {
                return Self::parse_failure("invalid update command");
            },
        };
        let ghost before = self.store.collections@;
        let mut docs = self.store.take_collection(db, coll);
        let ghost mid = self.store.collections@;
        let out = apply_updates(&mut docs, items, ordered, &mut self.ids);
        self.store.replace_documents(db, coll, docs);
        proof {
            lemma_others_unchanged(before, mid, self.store.collections@, db@, coll@);
        }
        build_write_response(&out, true)
    }

    /// Serves `delete`: every delete under `deletes` is applied to the
    /// collection. A collection that does not exist is not made.
    pub fn handle_delete(&mut self, doc: &Document, db: &str) -> (r: Document)
        requires
            old(self).wf(),
        ensures
            final(self).wf(),
            final(self).default_database == old(self).default_database,
            final(self).connection_id == old(self).connection_id,
            served_delete(*old(self), *final(self), doc@, db@, r@),
    {
        let (coll, items, ordered) = match get_write_args(doc, "delete", "deletes") {
            Some(a) => a,
            None => {
                return Self::parse_failure("invalid delete command");
            },
        };
        if self.store.find_collection(db, coll).is_none() {
            let mut none: Vec<Document> = Vec::new();
            assert(docs_view(none@) =~= Seq::<DocView>::empty());
            let out = apply_deletes(&mut none, items, ordered, &self.ids);
            proof {
                lemma_delete_keeps_empty(values_view(items@), ordered, 0, batch_start(*self, db@, coll@));
                assert(docs_view(none@) =~= Seq::<DocView>::empty());
            }
            return build_write_response(&out, false);
        }
        let ghost before = self.store.collections@;
        let mut docs = self.store.take_collection(db, coll);
        let ghost mid = self.store.collections@;
        let out = apply_deletes(&mut docs, items, ordered, &self.ids);
        self.store.replace_documents(db, coll, docs);
        proof {
            lemma_others_unchanged(before, mid, self.store.collections@, db@, coll@);
        }
        build_write_response(&out, false)
    }

    /// Serves `killCursors`: closes the cursors that the ids under
    /// `cursors` name, and reports which of them were open.
    pub fn handle_kill_cursors(&mut self, doc: &Document) -> (r: Document)
        requires
            old(self).wf(),
        ensures
            final(self).wf(),
            final(self).default_database == old(self).default_database,
            final(self).connection_id == old(self).connection_id,
            served_kill_cursors(*old(self), *final(self), doc@, r@),
    {
        let items = match doc.get("cursors") {
            Some(Bson::Array(items)) => {
                proof {
                    lemma_view_array(*items);
                }
                items
            },
            _ => {
                return Self::parse_failure("invalid killCursors command");
            },
        };
        let ids = match collect_cursor_ids(items) {
            Some(ids) => ids,
            None => {
                return Self::parse_failure("invalid killCursors command");
            },
        };
        let (killed, missing) = self.cursors.kill_cursors(&ids);
        let mut out = Document::new();
        out.push("cursorsKilled".to_owned(), ids_to_array(&killed));
        out.push("cursorsNotFound".to_owned(), ids_to_array(&missing));
        let alive: Vec<Bson> = Vec::new();
        let unknown: Vec<Bson> = Vec::new();
        proof {
            lemma_view_array(alive);
            lemma_view_array(unknown);
            assert(values_view(alive@) =~= Seq::<BsonView>::empty());
            assert(values_view(unknown@) =~= Seq::<BsonView>::empty());
        }
        out.push("cursorsAlive".to_owned(), Bson::Array(alive));
        out.push("cursorsUnknown".to_owned(), Bson::Array(unknown));
        out.push("ok".to_owned(), Bson::Double(OK_ONE));
        assert(out@ =~= kill_reply(killed@, missing@));
        out
    }

    /// Serves `create`: makes sure that the collection exists.
    pub fn handle_create(&mut self, doc: &Document, db: &str) -> (r: Document)
        requires
            old(self).wf(),
        ensures
            final(self).wf(),
            final(self).default_database == old(self).default_database,
            final(self).connection_id == old(self).connection_id,
            served_create(*old(self), *final(self), doc@, db@, r@),
    {
        match doc.get("create") {
            Some(Bson::String(coll)) => {
                let _ = self.store.ensure_collection(db, coll.as_str());
                MongoDBCommandRegistry::build_success_response()
            },
            _ => Self::parse_failure("invalid create command"),
        }
    }

    /// Serves `drop`: removes the collection and its documents, where it
    /// exists.
    pub fn handle_drop(&mut self, doc: &Document, db: &str) -> (r: Document)
        requires
            old(self).wf(),
        ensures
            final(self).wf(),
            final(self).default_database == old(self).default_database,
            final(self).connection_id == old(self).connection_id,
            served_drop(*old(self), *final(self), doc@, db@, r@),
    {
        match doc.get("drop") {
            Some(Bson::String(coll)) => {
                let _ = self.store.drop_collection(db, coll.as_str());
                let _ = self.indexes.drop_collection_indexes(db, coll.as_str());
                MongoDBCommandRegistry::build_success_response()
            },
            _ => Self::parse_failure("invalid drop command"),
        }
    }

    /// Serves `listCollections`: the collections of the database, in one
    /// batch.
    pub fn handle_list_collections(&self, db: &str) -> (r: Document)
        ensures
            r@ == list_collections_reply(*self, db@),
    {
        let names = self.store.list_collections(db);
        let mut batch: Vec<Document> = Vec::new();
        let mut i: usize = 0;
        while i < names.len()
            invariant
                i <= names.len(),
                batch@.len() == i,
                forall|j: int| 0 <= j < i ==> batch@[j]@ == collection_info(names@[j]@),
            decreases names.len() - i,
        {
            let mut d = Document::new();
            d.push("name".to_owned(), Bson::String(names[i].clone()));
            d.push("type".to_owned(), Bson::String("collection".to_owned()));
            assert(d@ =~= collection_info(names@[i as int]@));
            batch.push(d);
            i = i + 1;
        }
        let ns = concat(db, ".$cmd.listCollections");
        proof {
            let nv = names_in(self.store.collections@, db@, self.store.collections@.len() as int);
            assert(names_view(names@) == nv);
            assert(docs_view(batch@) =~= Seq::new(nv.len(), |i: int| collection_info(nv[i]))) by {
                assert forall|j: int| 0 <= j < nv.len() implies docs_view(batch@)[j]
                    == collection_info(nv[j]) by {
                    assert(names_view(names@)[j] == names@[j]@);
                }
            }
        }
        MongoDBCommandRegistry::build_cursor_response_with_namespace(&batch, 0, ns.as_str())
    }

    /// Serves `listDatabases`: the databases that hold a collection.
    pub fn handle_list_databases(&self) -> (r: Document)
        ensures
            r@ == list_databases_reply(*self),
    {
        let names = self.store.list_databases();
        let mut list: Vec<Bson> = Vec::new();
        let mut i: usize = 0;
        while i < names.len()
            invariant
                i <= names.len(),
                list@.len() == i,
                forall|j: int|
                    0 <= j < i ==> list@[j]@ == BsonView::Document(
                        database_info(names@[j]@, 0, false),
                    ),
            decreases names.len() - i,
        {
            let d = MongoDBCommandRegistry::build_database_info(names[i].as_str(), 0, false);
            proof {
                lemma_view_document(d);
            }
            list.push(Bson::Document(d));
            i = i + 1;
        }
        proof {
            let nv = databases_in(self.store.collections@, self.store.collections@.len() as int);
            assert(names_view(names@) == nv);
            lemma_view_array(list);
            assert(values_view(list@) =~= Seq::new(
                nv.len(),
                |i: int| BsonView::Document(database_info(nv[i], 0, false)),
            )) by {
                assert forall|j: int| 0 <= j < nv.len() implies values_view(list@)[j]
                    == BsonView::Document(database_info(nv[j], 0, false)) by {
                    assert(names_view(names@)[j] == names@[j]@);
                }
            }
        }
        let mut out = Document::new();
        out.push("databases".to_owned(), Bson::Array(list));
        out.push("totalSize".to_owned(), Bson::Int64(0));
        out.push("ok".to_owned(), Bson::Double(OK_ONE));
        assert(out@ =~= list_databases_reply(*self));
        out
    }

    /// The collection that a command writes to, with the kind of the
    /// command, where the command is one that writes: the database is the
    /// one that the command names under `$db`, or else the default one.
    pub fn write_target(&self, doc: &Document) -> (r: Option<(String, String, CommandKind)>)
        ensures
            match r {
                Some((db, coll, kind)) => written_by(doc@, self.default_database@) == Some(
                    (db@, coll@, kind),
                ),
                None => written_by(doc@, self.default_database@).is_none(),
            },
    {
        let name = match doc.first_key() {
            Some(n) => n,
            None => {
                return None;
            },
        };
        let kind = match MongoDBCommandRegistry::kind_of(name) {
            Some(CommandKind::Insert) => CommandKind::Insert,
            Some(CommandKind::Update) => CommandKind::Update,
            Some(CommandKind::Delete) => CommandKind::Delete,
            Some(CommandKind::Create) => CommandKind::Create,
            Some(CommandKind::Drop) => CommandKind::Drop,
            _ => {
                return None;
            },
        };
        let coll = match doc.value_at(0) {
            Bson::String(c) => c.clone(),
            _ => {
                return None;
            },
        };
        let db = match doc.get("$db") {
            Some(Bson::String(d)) => d.clone(),
            _ => self.default_database.clone(),
        };
        Some((db, coll, kind))
    }

    /// Serves one command: finds the command by the name of the first
    /// entry of its document and answers it.
    pub fn process_command(&mut self, doc: &Document, now: u64) -> (r: Document)
        requires
            old(self).wf(),
        ensures
            final(self).wf(),
            final(self).default_database == old(self).default_database,
            final(self).connection_id == old(self).connection_id,
            served(*old(self), *final(self), doc@, now, r@),
    {
        let name = match doc.first_key() {
            Some(n) => n,
            None => {
                proof {
                    assert("no such command: "@ + ""@ =~= "no such command: "@ + Seq::<
                        char,
                    >::empty()) by {
                        reveal_strlit("");
                    }
                }
                return MongoDBCommandRegistry::handle_unknown("");
            },
        };
        let default = self.default_database.clone();
        let db: &str = match doc.get("$db") {
            Some(Bson::String(d)) => d.as_str(),
            _ => default.as_str(),
        };
        match MongoDBCommandRegistry::kind_of(name) {
            None => MongoDBCommandRegistry::handle_unknown(name),
            Some(CommandKind::NotImplemented) => MongoDBCommandRegistry::handle_not_implemented(
                name,
            ),
            Some(CommandKind::CreateIndexes) => self.handle_create_indexes(doc, db, now),
            Some(CommandKind::DropIndexes) => self.handle_drop_indexes(doc, db),
            Some(CommandKind::ListIndexes) => self.handle_list_indexes(doc, db),
            Some(CommandKind::Hello) => MongoDBCommandRegistry::handle_hello(
                #[verifier::truncate] (now as i64),
                self.connection_id,
            ),
            Some(CommandKind::Ping) => MongoDBCommandRegistry::handle_ping(),
            Some(CommandKind::BuildInfo) => MongoDBCommandRegistry::handle_build_info(),
            Some(CommandKind::Find) => self.handle_find(doc, db, now),
            Some(CommandKind::Aggregate) => self.handle_aggregate(doc, db, now),
            Some(CommandKind::Count) => self.handle_count(doc, db, name),
            Some(CommandKind::GetMore) => self.handle_get_more(doc, now),
            Some(CommandKind::KillCursors) => self.handle_kill_cursors(doc),
            Some(CommandKind::Insert) => self.handle_insert(doc, db),
            Some(CommandKind::Update) => self.handle_update(doc, db),
            Some(CommandKind::Delete) => self.handle_delete(doc, db),
            Some(CommandKind::Create) => self.handle_create(doc, db),
            Some(CommandKind::Drop) => self.handle_drop(doc, db),
            Some(CommandKind::ListCollections) => self.handle_list_collections(db),
            Some(CommandKind::ListDatabases) => self.handle_list_databases(),
        }
    }

    /// Serves one request that came over the wire: reads the message,
    /// serves its command, and writes the response, which names the id of
    /// the request as the one it answers. A response that has no binary
    /// form gives way to the error for a response that is too large. A
    /// message that cannot be read gives its error and changes nothing: no
    /// response can be sent where the framing is lost.
    pub fn process_message(&mut self, data: &[u8], request_id: u32, now: u64) -> (r: Result<
        Vec<u8>,
        WireError,
    >)
        requires
            old(self).wf(),
        ensures
            final(self).wf(),
            match parse_wire_message(data@) {
                Err(e) => r == Err::<Vec<u8>, WireError>(e) && *final(self) == *old(self),
                Ok(m) => exists|reply: DocView|
                    #[trigger] served(*old(self), *final(self), command_document_of(m), now, reply)
                        && (r matches Ok(bytes) && bytes@ == response_frame(
                        m,
                        request_id,
                        encode_document(
                            if legal_document(reply) {
                                reply
                            } else {
                                crate::connection::too_large_response()
                            },
                        ),
                    )),
            },
    {
        let message = match WireProtocolHandler::parse_message(data) {
            Ok(m) => m,
            Err(e) => {
                return Err(e);
            },
        };
        let command = message.get_command_document();
        let reply = self.process_command(&command, now);
        match WireProtocolHandler::build_response(&message, request_id, &reply) {
            Ok(bytes) => Ok(bytes),
            Err(_) => {
                let fallback = MongoDBCommandRegistry::build_error_response(
                    crate::mongodb_commands::CODE_INTERNAL_ERROR,
                    "InternalError",
                    "response too large",
                );
                proof {
                    crate::connection::lemma_fixed_responses_are_legal();
                }
                WireProtocolHandler::build_response(&message, request_id, &fallback)
            },
        }
    }
}

/// What is unchanged by each of two steps is unchanged by both.
proof fn lemma_others_unchanged(
    a: Seq<crate::store::CollectionData>,
    b: Seq<crate::store::CollectionData>,
    c: Seq<crate::store::CollectionData>,
    db: Seq<char>,
    name: Seq<char>,
)
    requires
        others_unchanged(a, b, db, name),
        others_unchanged(b, c, db, name),
    ensures
        others_unchanged(a, c, db, name),
{
    assert forall|d: Seq<char>, n: Seq<char>| !(d == db && n == name) implies ((
    #[trigger] has_collection(c, d, n) <==> has_collection(a, d, n)) && documents_of(c, d, n)
        == documents_of(a, d, n)) by {
        assert(has_collection(b, d, n) <==> has_collection(a, d, n));
    }
}

/// Deletes leave a collection without documents as it is.
proof fn lemma_delete_keeps_empty(specs: Seq<BsonView>, ordered: bool, i: int, b: BatchState)
    requires
        b.docs.len() == 0,
        0 <= i,
    ensures
        delete_batch_from(specs, ordered, i, b).docs.len() == 0,
        delete_batch_from(specs, ordered, i, b).ids == b.ids,
    decreases specs.len() - i,
{
    if i < specs.len() {
        let (next, failed) = crate::writes::delete_one(specs[i], i, b);
        assert(next.docs.len() == 0 && next.ids == b.ids) by {
            match specs[i] {
                BsonView::Document(s) => match lookup(s, "q"@) {
                    Some(BsonView::Document(q)) => {
                        assert(crate::storage::delete_from(
                            b.docs,
                            q,
                            crate::writes::deletes_all(s),
                            0,
                            Seq::empty(),
                            0,
                        ) == Ok::<(Seq<DocView>, nat), StorageError>((Seq::empty(), 0)));
                    },
                    _ => {},
                },
                _ => {},
            }
        }
        if !(failed && ordered) {
            lemma_delete_keeps_empty(specs, ordered, i + 1, next);
        }
    }
}

impl CommandProcessor {
    /// Whether the state is consistent.
    pub fn is_consistent(&self) -> (r: bool)
        ensures
            r == self.wf(),
    {
        self.cursors.is_consistent() && self.ids.counter < 0x1000000
    }
}

} // verus!
