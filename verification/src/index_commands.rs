//! The commands that make, drop and list indexes.

use crate::aggregation::count_value;
use crate::aggregation_pipeline::{
    bool_at, doc_at, get_doc, get_flag, get_int, get_string, i32_at, opt_doc_view,
    opt_string_view, str_at,
};
use crate::bson::{lemma_view_array, lemma_view_document, lookup, str_eq, values_view, Bson, BsonView, DocView, Document};
use crate::command_processor::{failed_to_parse, namespace, CommandProcessor};
use crate::indexing::{
    count_on, default_index_name, described, index_fault, index_position, name_of_index, named,
    without_collection, IndexError, IndexManager, IndexOptions, IndexSpec, IndexView,
};
use crate::mongodb_commands::{
    cursor_response, error_response, success_response, MongoDBCommandRegistry, OK_ONE,
};
use crate::text::concat;
use vstd::prelude::*;

verus! {

/// Code of the error for an index that cannot be made.
pub const CODE_CANNOT_CREATE_INDEX: i32 = 67;

/// Code of the error for an index that is not there.
pub const CODE_INDEX_NOT_FOUND: i32 = 27;

/// Code of the error for an option that cannot be used.
pub const CODE_INVALID_OPTIONS: i32 = 72;

/// What a request for an index asks for.
pub struct IndexRequest {
    pub key: DocView,
    pub name: Option<Seq<char>>,
    pub unique: bool,
    pub sparse: bool,
    pub expire_after_seconds: Option<i32>,
}

/// The request that an item of `indexes` spells: a document with a key;
/// `None` for anything else.
pub open spec fn index_request(v: BsonView) -> Option<IndexRequest> {
    match v {
        BsonView::Document(d) => match doc_at(d, "key"@) {
            Some(key) => Some(
                IndexRequest {
                    key,
                    name: str_at(d, "name"@),
                    unique: bool_at(d, "unique"@) == Some(true),
                    sparse: bool_at(d, "sparse"@) == Some(true),
                    expire_after_seconds: i32_at(d, "expireAfterSeconds"@),
                },
            ),
            None => None,
        },
        _ => None,
    }
}

/// The name that a requested index gets.
pub open spec fn request_name(q: IndexRequest) -> Seq<char> {
    match q.name {
        Some(n) => n,
        None => default_index_name(q.key),
    }
}

/// A requested index on a collection as the commands see it.
pub open spec fn requested(q: IndexRequest, db: Seq<char>, coll: Seq<char>) -> IndexView {
    IndexView {
        database: db,
        collection: coll,
        name: request_name(q),
        key: q.key,
        unique: q.unique,
        sparse: q.sparse,
        expire_after_seconds: q.expire_after_seconds,
    }
}

/// Why a list of requests stopped.
pub enum IndexFailure {
    /// An item that is no request.
    BadRequest,
    /// A request that breaks a rule.
    Fault(IndexError),
}

/// What the requests from index `i` on make of the indexes `cat`: the
/// indexes afterwards, and why the requests stopped, if they did. The
/// requests are served in order. An index whose name the collection has
/// already is not made again. The first item that is no request, or that
/// breaks a rule, ends the list; what was made before it stays.
pub open spec fn indexes_made(
    cat: Seq<IndexView>,
    db: Seq<char>,
    coll: Seq<char>,
    items: Seq<BsonView>,
    i: int,
) -> (Seq<IndexView>, Option<IndexFailure>)
    decreases items.len() - i,
{
    if i < 0 || i >= items.len() {
        (cat, None)
    } else {
        match index_request(items[i]) {
            None => (cat, Some(IndexFailure::BadRequest)),
            Some(q) => match index_fault(q.key, q.expire_after_seconds.is_some()) {
                Some(e) => (cat, Some(IndexFailure::Fault(e))),
                None => indexes_made(
                    if index_position(cat, db, coll, request_name(q)) == cat.len() {
                        cat.push(requested(q, db, coll))
                    } else {
                        cat
                    },
                    db,
                    coll,
                    items,
                    i + 1,
                ),
            },
        }
    }
}

/// The words that describe why an index cannot be made.
pub open spec fn index_error_text(e: IndexError) -> Seq<char> {
    match e {
        IndexError::EmptyKey => "index key cannot be empty"@,
        IndexError::OperatorField => "index field cannot start with '$'"@,
        IndexError::BadDirection => "invalid index direction"@,
        IndexError::TextNotAlone => "text index cannot be combined with other fields"@,
        IndexError::TooManyGeoFields => "2dsphere index can only have one field"@,
        IndexError::TtlNeedsOneField => "TTL index can only have one field"@,
        IndexError::TtlNeedsDirection => "TTL index field must be ascending or descending"@,
        _ => "invalid index"@,
    }
}

/// A number of indexes with the index on `_id` counted in.
pub open spec fn with_id_index(n: int) -> nat {
    if n < usize::MAX {
        (n + 1) as nat
    } else {
        usize::MAX as nat
    }
}

/// The response to `createIndexes`.
pub open spec fn create_indexes_reply(
    before: Seq<IndexView>,
    after: Seq<IndexView>,
    db: Seq<char>,
    coll: Seq<char>,
    failure: Option<IndexFailure>,
) -> DocView {
    match failure {
        Some(IndexFailure::BadRequest) => failed_to_parse("invalid index specification"@),
        Some(IndexFailure::Fault(e)) => error_response(
            CODE_CANNOT_CREATE_INDEX,
            "CannotCreateIndex"@,
            index_error_text(e),
        ),
        None => seq![
            (
                "numIndexesBefore"@,
                count_value(with_id_index(count_on(before, db, coll, before.len() as int))),
            ),
            (
                "numIndexesAfter"@,
                count_value(with_id_index(count_on(after, db, coll, after.len() as int))),
            ),
            ("ok"@, BsonView::Double(OK_ONE)),
        ],
    }
}

/// The time that an index made at `now` is stamped with: `now` as a
/// signed number.
pub open spec fn index_stamp(now: u64) -> i64 {
    now as i64
}

/// What serving `createIndexes` means: the state afterwards and the
/// response.
pub open spec fn served_create_indexes(
    before: CommandProcessor,
    after: CommandProcessor,
    doc: DocView,
    db: Seq<char>,
    r: DocView,
) -> bool {
    &&& after.store == before.store
    &&& after.ids == before.ids
    &&& after.cursors == before.cursors
    &&& match (lookup(doc, "createIndexes"@), lookup(doc, "indexes"@)) {
        (Some(BsonView::String(coll)), Some(BsonView::Array(items))) => {
            let (cat, failure) = indexes_made(before.indexes@, db, coll, items, 0);
            after.indexes@ == cat && r == create_indexes_reply(
                before.indexes@,
                cat,
                db,
                coll,
                failure,
            )
        },
        _ => r == failed_to_parse("invalid createIndexes command"@) && after.indexes@
            == before.indexes@,
    }
}

/// What serving `dropIndexes` means: the state afterwards and the
/// response. The name `*` drops every index of the collection but the
/// one on `_id`.
pub open spec fn served_drop_indexes(
    before: CommandProcessor,
    after: CommandProcessor,
    doc: DocView,
    db: Seq<char>,
    r: DocView,
) -> bool {
    &&& after.store == before.store
    &&& after.ids == before.ids
    &&& after.cursors == before.cursors
    &&& match (lookup(doc, "dropIndexes"@), lookup(doc, "index"@)) {
        (Some(BsonView::String(coll)), Some(BsonView::String(name))) => {
            let cat = before.indexes@;
            let at = index_position(cat, db, coll, name);
            if name == "*"@ {
                r == success_response() && after.indexes@ == without_collection(
                    cat,
                    db,
                    coll,
                    cat.len() as int,
                )
            } else if name == "_id_"@ {
                r == error_response(
                    CODE_INVALID_OPTIONS,
                    "InvalidOptions"@,
                    "cannot drop _id index"@,
                ) && after.indexes@ == cat
            } else if at >= cat.len() {
                r == error_response(CODE_INDEX_NOT_FOUND, "IndexNotFound"@, "index not found"@)
                    && after.indexes@ == cat
            } else {
                r == success_response() && after.indexes@ == cat.remove(at)
            }
        },
        _ => r == failed_to_parse("invalid dropIndexes command"@) && after.indexes@
            == before.indexes@,
    }
}

/// The response to `listIndexes`: the descriptions of the indexes of the
/// collection, the one on `_id` first, in one batch.
pub open spec fn list_indexes_reply(p: CommandProcessor, doc: DocView, db: Seq<char>) -> DocView {
    match lookup(doc, "listIndexes"@) {
        Some(BsonView::String(coll)) => cursor_response(
            "firstBatch"@,
            described(p.indexes@, db, coll, p.indexes@.len() as int),
            0,
            namespace(db, coll),
        ),
        _ => failed_to_parse("invalid listIndexes command"@),
    }
}

/// The words that describe why an index cannot be made.
pub fn describe_index_error(e: IndexError) -> (r: &'static str)
    ensures
        r@ == index_error_text(e),
{
    match e {
        IndexError::EmptyKey => "index key cannot be empty",
        IndexError::OperatorField => "index field cannot start with '$'",
        IndexError::BadDirection => "invalid index direction",
        IndexError::TextNotAlone => "text index cannot be combined with other fields",
        IndexError::TooManyGeoFields => "2dsphere index can only have one field",
        IndexError::TtlNeedsOneField => "TTL index can only have one field",
        IndexError::TtlNeedsDirection => "TTL index field must be ascending or descending",
        _ => "invalid index",
    }
}

/// The index that an item of `indexes` asks for on a collection.
pub fn read_index_request(item: &Bson, db: &str, coll: &str) -> (r: Option<IndexSpec>)
    ensures
        match r {
            Some(s) => index_request(item@) matches Some(q) && named(s, name_of_index(s))
                == requested(q, db@, coll@) && s.key@ == q.key
                && s.options.expire_after_seconds == q.expire_after_seconds && s.database@ == db@
                && s.collection@ == coll@,
            None => index_request(item@).is_none(),
        },
{
    let d = match item {
        Bson::Document(d) => {
            proof {
                lemma_view_document(*d);
            }
            d
        },
        _ => {
            return None;
        },
    };
    let key = match get_doc(d, "key") {
        Some(k) => k,
        None => {
            return None;
        },
    };
    let mut options = IndexOptions::new();
    options.name = get_string(d, "name");
    options.unique = get_flag(d, "unique");
    options.sparse = get_flag(d, "sparse");
    options.expire_after_seconds = get_int(d, "expireAfterSeconds");
    options.partial_filter_expression = get_doc(d, "partialFilterExpression");
    Some(
        IndexSpec {
            name: String::new(),
            key,
            options,
            created_at: 0,
            collection: coll.to_owned(),
            database: db.to_owned(),
        },
    )
}

/// A number of indexes with the index on `_id` counted in.
fn count_with_id(n: usize) -> (r: Bson)
    ensures
        r@ == count_value(with_id_index(n as int)),
{
    let m = if n < usize::MAX {
        n + 1
    } else {
        n
    };
    crate::writes::count_to_bson(m)
}

impl CommandProcessor {
    /// Serves `createIndexes`: makes the indexes that the command asks
    /// for, in order, each stamped with `now`, and answers with the
    /// number of indexes of the collection before and afterwards.
    #[verifier::loop_isolation(false)]
    pub fn handle_create_indexes(&mut self, doc: &Document, db: &str, now: u64) -> (r: Document)
        requires
            old(self).wf(),
        ensures
            final(self).wf(),
            final(self).default_database == old(self).default_database,
            final(self).connection_id == old(self).connection_id,
            served_create_indexes(*old(self), *final(self), doc@, db@, r@),
            crate::indexing::made_at(
                old(self).indexes.indexes@,
                final(self).indexes.indexes@,
                index_stamp(now),
            ),
    {
        let (coll, items): (&str, &Vec<Bson>) = match (doc.get("createIndexes"), doc.get("indexes")) {
            (Some(Bson::String(c)), Some(Bson::Array(items))) => {
                proof {
                    lemma_view_array(*items);
                }
                (c.as_str(), items)
            },
            _ => {
                return Self::parse_failure("invalid createIndexes command");
            },
        };
        let ghost iv = values_view(items@);
        let ghost start = self.indexes@;
        let before = self.indexes.count(db, coll);
        let stamp: i64 = #[verifier::truncate] (now as i64);
        let mut i: usize = 0;
        while i < items.len()
            invariant
                i <= items.len(),
                stamp == index_stamp(now),
                crate::indexing::made_at(old(self).indexes.indexes@, self.indexes.indexes@, stamp),
                self.store == old(self).store,
                self.ids == old(self).ids,
                self.cursors == old(self).cursors,
                self.default_database == old(self).default_database,
                self.connection_id == old(self).connection_id,
                indexes_made(self.indexes@, db@, coll@, iv, i as int) == indexes_made(
                    start,
                    db@,
                    coll@,
                    iv,
                    0,
                ),
            decreases items.len() - i,
        {
            let spec = match read_index_request(&items[i], db, coll) {
                Some(s) => s,
                None => {
                    return Self::parse_failure("invalid index specification");
                },
            };
            match self.indexes.create_index(spec, stamp) {
                Ok(_) => {},
                Err(e) => {
                    return MongoDBCommandRegistry::build_error_response(
                        CODE_CANNOT_CREATE_INDEX,
                        "CannotCreateIndex",
                        describe_index_error(e),
                    );
                },
            }
            i = i + 1;
        }
        let after = self.indexes.count(db, coll);
        let mut out = Document::new();
        out.push("numIndexesBefore".to_owned(), count_with_id(before));
        out.push("numIndexesAfter".to_owned(), count_with_id(after));
        out.push("ok".to_owned(), Bson::Double(OK_ONE));
        assert(out@ =~= create_indexes_reply(start, self.indexes@, db@, coll@, None));
        out
    }

    /// Serves `dropIndexes`: drops the index that the command names, or
    /// every index of the collection but the one on `_id` for the name
    /// `*`.
    pub fn handle_drop_indexes(&mut self, doc: &Document, db: &str) -> (r: Document)
        requires
            old(self).wf(),
        ensures
            final(self).wf(),
            final(self).default_database == old(self).default_database,
            final(self).connection_id == old(self).connection_id,
            served_drop_indexes(*old(self), *final(self), doc@, db@, r@),
    {
        let (coll, name): (&str, &str) = match (doc.get("dropIndexes"), doc.get("index")) {
            (Some(Bson::String(c)), Some(Bson::String(n))) => (c.as_str(), n.as_str()),
            _ => {
                return Self::parse_failure("invalid dropIndexes command");
            },
        };
        if str_eq(name, "*") {
            let _ = self.indexes.drop_collection_indexes(db, coll);
            return MongoDBCommandRegistry::build_success_response();
        }
        match self.indexes.drop_index(db, coll, name) {
            Ok(()) => MongoDBCommandRegistry::build_success_response(),
            Err(IndexError::CannotDropIdIndex) => MongoDBCommandRegistry::build_error_response(
                CODE_INVALID_OPTIONS,
                "InvalidOptions",
                "cannot drop _id index",
            ),
            Err(_) => MongoDBCommandRegistry::build_error_response(
                CODE_INDEX_NOT_FOUND,
                "IndexNotFound",
                "index not found",
            ),
        }
    }

    /// Serves `listIndexes`: the descriptions of the indexes of the
    /// collection, in one batch.
    pub fn handle_list_indexes(&self, doc: &Document, db: &str) -> (r: Document)
        ensures
            r@ == list_indexes_reply(*self, doc@, db@),
    {
        match doc.get("listIndexes") {
            Some(Bson::String(coll)) => {
                let batch = self.indexes.list_indexes(db, coll.as_str());
                let mut ns = concat(db, ".");
                ns.append(coll.as_str());
                assert(ns@ =~= namespace(db@, coll@));
                MongoDBCommandRegistry::build_batch_response("firstBatch", &batch, 0, ns.as_str())
            },
            _ => Self::parse_failure("invalid listIndexes command"),
        }
    }
}

} // verus!
