//! What holds of every response to `find` and to `aggregate`, and of
//! `getMore` on a cursor that has handed out its last batch.

use crate::bson::{lookup, position_from, BsonView, DocView};
use crate::command_processor::{
    aggregate_args, batch_reply, find_args, namespace, served_aggregate, served_find,
    CommandProcessor,
};
use crate::cursor::CursorRegistry;
use crate::mongodb_commands::{as_items, cursor_response, error_response, OK_ONE, OK_ZERO};
use vstd::prelude::*;

verus! {

/// Whether a response reports success.
pub open spec fn is_success(r: DocView) -> bool {
    lookup(r, "ok"@) == Some(BsonView::Double(OK_ONE))
}

/// Whether a response carries the first batch of a cursor on the
/// namespace `ns`: a document `cursor` with the batch under `firstBatch`,
/// the namespace under `ns`, and under `id` a number that is zero where no
/// cursor is kept (`kept` is false) and is not zero where one is.
pub open spec fn is_envelope(r: DocView, ns: Seq<char>, kept: bool) -> bool {
    match lookup(r, "cursor"@) {
        Some(BsonView::Document(c)) => {
            &&& lookup(c, "firstBatch"@) matches Some(BsonView::Array(_))
            &&& lookup(c, "ns"@) == Some(BsonView::String(ns))
            &&& lookup(c, "id"@) matches Some(BsonView::Int64(id)) && (id == 0 <==> !kept)
        },
        _ => false,
    }
}

/// The names of the fields of a response differ from each other.
proof fn lemma_field_names()
    ensures
        "cursor"@ != "ok"@,
        "firstBatch"@ != "id"@,
        "firstBatch"@ != "ns"@,
        "id"@ != "ns"@,
{
    reveal_strlit("cursor");
    reveal_strlit("ok");
    reveal_strlit("firstBatch");
    reveal_strlit("id");
    reveal_strlit("ns");
    assert("cursor"@.len() == 6 && "ok"@.len() == 2);
    assert("firstBatch"@.len() == 10 && "id"@.len() == 2 && "ns"@.len() == 2);
    assert("id"@[0] != "ns"@[0]);
}

/// A response with a first batch is a success and carries the batch, the
/// namespace and the id.
pub proof fn lemma_cursor_response(docs: Seq<DocView>, id: u64, ns: Seq<char>)
    ensures
        is_success(cursor_response("firstBatch"@, docs, id, ns)),
        is_envelope(cursor_response("firstBatch"@, docs, id, ns), ns, id != 0),
{
    lemma_field_names();
    reveal_with_fuel(position_from, 4);
    let r = cursor_response("firstBatch"@, docs, id, ns);
    let c: DocView = seq![
        ("firstBatch"@, BsonView::Array(as_items(docs))),
        ("id"@, BsonView::Int64(id as i64)),
        ("ns"@, BsonView::String(ns)),
    ];
    assert(r[0] == ("cursor"@, BsonView::Document(c)));
    assert(r[1].0 == "ok"@);
    assert(position_from(r, "cursor"@, 0) == 0);
    assert(position_from(r, "ok"@, 0) == 1);
    assert(lookup(r, "cursor"@) == Some(BsonView::Document(c)));
    assert(c[0].0 == "firstBatch"@ && c[1].0 == "id"@ && c[2].0 == "ns"@);
    assert(position_from(c, "firstBatch"@, 0) == 0);
    assert(position_from(c, "id"@, 0) == 1);
    assert(position_from(c, "ns"@, 0) == 2);
    assert((id as i64 == 0) <==> id == 0) by (bit_vector);
}

/// An error response is no success.
pub proof fn lemma_error_is_no_success(code: i32, code_name: Seq<char>, message: Seq<char>)
    ensures
        !is_success(error_response(code, code_name, message)),
{
    reveal_with_fuel(position_from, 2);
    let r = error_response(code, code_name, message);
    assert(r[0].0 == "ok"@);
    assert(position_from(r, "ok"@, 0) == 0);
    assert(OK_ONE != OK_ZERO);
}

/// Every response that hands out the documents of a result either is an
/// error, and then no cursor is kept, or carries the first batch, the
/// namespace and the id of the cursor, which is zero if and only if no
/// cursor was kept.
pub proof fn lemma_batch_envelope(
    before: CursorRegistry,
    after: CursorRegistry,
    r: DocView,
    results: Seq<DocView>,
    batch_size: usize,
    ns: Seq<char>,
    now: u64,
)
    requires
        batch_reply(before, after, r, results, batch_size, ns, now),
    ensures
        is_success(r) ==> is_envelope(r, ns, after.cursors@.len() > before.cursors@.len()),
        !is_success(r) ==> after.cursors@ == before.cursors@,
{
    if results.len() <= batch_size {
        lemma_cursor_response(results, 0, ns);
    } else if before.next_id == u64::MAX {
        lemma_error_is_no_success(
            crate::mongodb_commands::CODE_INTERNAL_ERROR,
            "InternalError"@,
            "too many cursors"@,
        );
    } else {
        lemma_cursor_response(results.take(batch_size as int), before.next_id, ns);
    }
}

/// Every successful response to `find` carries `cursor.firstBatch`,
/// `cursor.ns` with the database, a dot and the collection, and
/// `cursor.id`, which is zero if and only if no cursor was kept.
pub proof fn lemma_find_envelope(
    before: CommandProcessor,
    after: CommandProcessor,
    doc: DocView,
    db: Seq<char>,
    now: u64,
    r: DocView,
)
    requires
        served_find(before, after, doc, db, now, r),
        is_success(r),
    ensures
        find_args(doc) matches Some(a) && is_envelope(
            r,
            db + "."@ + a.collection,
            after.cursors.cursors@.len() > before.cursors.cursors@.len(),
        ),
{
    match find_args(doc) {
        None => {
            lemma_error_is_no_success(
                crate::mongodb_commands::CODE_FAILED_TO_PARSE,
                "FailedToParse"@,
                "invalid find command"@,
            );
        },
        Some(a) => {
            match crate::storage::found(
                crate::store::documents_of(before.store.collections@, db, a.collection),
                a.filter,
                a.sort,
                a.skip,
                a.limit,
                a.projection,
            ) {
                Err(e) => {
                    lemma_error_is_no_success(
                        crate::mongodb_commands::CODE_BAD_VALUE,
                        "BadValue"@,
                        crate::command_processor::storage_error_text(e),
                    );
                },
                Ok(results) => {
                    lemma_batch_envelope(
                        before.cursors,
                        after.cursors,
                        r,
                        results,
                        a.batch_size,
                        namespace(db, a.collection),
                        now,
                    );
                },
            }
        },
    }
}

/// Every successful response to `aggregate` carries `cursor.firstBatch`,
/// `cursor.ns` with the database, a dot and the collection, and
/// `cursor.id`, which is zero if and only if no cursor was kept.
pub proof fn lemma_aggregate_envelope(
    before: CommandProcessor,
    after: CommandProcessor,
    doc: DocView,
    db: Seq<char>,
    now: u64,
    r: DocView,
)
    requires
        served_aggregate(before, after, doc, db, now, r),
        is_success(r),
    ensures
        aggregate_args(doc) matches Some(a) && is_envelope(
            r,
            db + "."@ + a.0,
            after.cursors.cursors@.len() > before.cursors.cursors@.len(),
        ),
{
    match aggregate_args(doc) {
        None => {
            lemma_error_is_no_success(
                crate::mongodb_commands::CODE_FAILED_TO_PARSE,
                "FailedToParse"@,
                "invalid aggregate command"@,
            );
        },
        Some((coll, stages, batch)) => {
            match crate::aggregation::run_pipeline(
                stages,
                crate::store::documents_of(before.store.collections@, db, coll),
                0,
            ) {
                Err(e) => {
                    lemma_error_is_no_success(
                        crate::mongodb_commands::CODE_BAD_VALUE,
                        "BadValue"@,
                        crate::command_processor::storage_error_text(
                            crate::storage::StorageError::Aggregation(e),
                        ),
                    );
                },
                Ok(results) => {
                    lemma_batch_envelope(
                        before.cursors,
                        after.cursors,
                        r,
                        results,
                        batch,
                        namespace(db, coll),
                        now,
                    );
                },
            }
        },
    }
}

/// Whether a response hands out the last batch of a cursor: it is a
/// success and carries the cursor id zero.
pub open spec fn is_last_batch(r: DocView) -> bool {
    is_success(r) && (match lookup(r, "cursor"@) {
        Some(BsonView::Document(c)) => lookup(c, "id"@) == Some(BsonView::Int64(0)),
        _ => false,
    })
}

/// The id that a response with a next batch carries.
proof fn lemma_next_batch_id(docs: Seq<DocView>, id: u64, ns: Seq<char>)
    ensures
        is_last_batch(cursor_response("nextBatch"@, docs, id, ns)) <==> id == 0,
{
    lemma_field_names();
    reveal_strlit("nextBatch");
    reveal_strlit("id");
    reveal_strlit("cursor");
    reveal_strlit("ok");
    assert("nextBatch"@.len() == 9 && "id"@.len() == 2);
    reveal_with_fuel(position_from, 4);
    let r = cursor_response("nextBatch"@, docs, id, ns);
    let c: DocView = seq![
        ("nextBatch"@, BsonView::Array(as_items(docs))),
        ("id"@, BsonView::Int64(id as i64)),
        ("ns"@, BsonView::String(ns)),
    ];
    assert(r[0] == ("cursor"@, BsonView::Document(c)));
    assert(r[1].0 == "ok"@);
    assert(position_from(r, "cursor"@, 0) == 0);
    assert(position_from(r, "ok"@, 0) == 1);
    assert(c[0].0 == "nextBatch"@ && c[1].0 == "id"@);
    assert(position_from(c, "id"@, 0) == 1);
    assert((id as i64 == 0) <==> id == 0) by (bit_vector);
}

/// Cursor exhaustion: once `getMore` has handed out the last batch of a
/// cursor, with the id zero, the same `getMore` again is answered with
/// "cursor not found".
pub proof fn lemma_get_more_after_exhaustion(
    first: CommandProcessor,
    second: CommandProcessor,
    third: CommandProcessor,
    doc: DocView,
    now: u64,
    later: u64,
    r1: DocView,
    r2: DocView,
)
    requires
        first.wf(),
        crate::command_processor::served_get_more(first, second, doc, now, r1),
        crate::command_processor::served_get_more(second, third, doc, later, r2),
        is_last_batch(r1),
    ensures
        r2 == error_response(
            crate::mongodb_commands::CODE_CURSOR_NOT_FOUND,
            "CursorNotFound"@,
            "cursor not found"@,
        ),
        third.cursors.cursors@ == second.cursors.cursors@,
{
    match (
        lookup(doc, "getMore"@),
        crate::command_processor::count_arg(doc, "batchSize"@, 0),
    ) {
        (Some(BsonView::Int64(id)), Some(batch)) => {
            let cid = id as u64;
            let open = first.cursors.cursors@;
            if !crate::cursor::is_open(open, cid) {
                lemma_error_is_no_success(
                    crate::mongodb_commands::CODE_CURSOR_NOT_FOUND,
                    "CursorNotFound"@,
                    "cursor not found"@,
                );
            } else {
                let i = crate::cursor::cursor_index(open, cid);
                let c = open[i];
                let size = if batch == 0 {
                    crate::cursor::own_batch_size(c)
                } else {
                    batch
                };
                let left = crate::bson::docs_view(c.remaining@);
                let shown = left.take(crate::cursor::batch_len(left.len(), size) as int);
                if left.len() <= size {
                    lemma_next_batch_id(shown, 0, c.namespace@);
                } else {
                    lemma_next_batch_id(shown, cid, c.namespace@);
                    crate::cursor::lemma_exhausted_cursor_is_gone(first.cursors, cid);
                }
            }
        },
        _ => {
            lemma_error_is_no_success(
                crate::mongodb_commands::CODE_FAILED_TO_PARSE,
                "FailedToParse"@,
                "invalid getMore command"@,
            );
        },
    }
}

} // verus!
