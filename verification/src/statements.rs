//! The statements by which collections and documents are kept in the
//! backend.
//!
//! A database is a schema and a collection is a table in it, with a
//! serial `id`, a JSON column `data` and the time at which a row was
//! made. The names of schemas and tables are written into a statement as
//! checked identifiers; whatever else a client has sent travels as a
//! parameter.

use crate::bson::{DocView, Document};
use crate::pipeline_sql::{push_number, push_sort_keys, with_sort_keys};
use crate::sql::{
    identifier_ok, lowered, push_filter, sanitize_identifier, table_name, with_param, with_text,
    ParamView, SqlError, SqlParam, SqlQuery, SqlView,
};
use crate::text::decimal;
use vstd::prelude::*;
use vstd::utf8::encode_utf8;

verus! {

/// The table of a collection: the identifiers of its schema and of the
/// table itself.
#[derive(Debug, PartialEq)]
pub struct Table {
    pub schema: String,
    pub name: String,
}

/// A statement with the given text and no parameter.
pub open spec fn statement(text: Seq<char>) -> SqlView {
    SqlView { text, params: Seq::empty() }
}

/// The statement with the qualified name of a table appended.
pub open spec fn with_table(q: SqlView, t: Table) -> SqlView {
    with_text(with_text(with_text(q, t.schema@), "."@), t.name@)
}

/// The statement that makes the schema of a table.
pub open spec fn create_schema_statement(t: Table) -> SqlView {
    with_text(statement("CREATE SCHEMA IF NOT EXISTS "@), t.schema@)
}

/// The statement that makes a table unless it is there.
pub open spec fn create_table_statement(t: Table) -> SqlView {
    with_text(
        with_table(statement("CREATE TABLE IF NOT EXISTS "@), t),
        " (id BIGSERIAL PRIMARY KEY, data JSONB NOT NULL, created_at TIMESTAMP DEFAULT CURRENT_TIMESTAMP)"@,
    )
}

/// The statement that makes the index over the JSON column of a table
/// unless it is there.
pub open spec fn create_index_statement(t: Table) -> SqlView {
    with_text(
        with_table(
            with_text(
                with_text(
                    with_text(
                        with_text(statement("CREATE INDEX IF NOT EXISTS idx_"@), t.schema@),
                        "_"@,
                    ),
                    t.name@,
                ),
                "_data ON "@,
            ),
            t,
        ),
        " USING GIN (data)"@,
    )
}

/// The statement that removes a table if it is there.
pub open spec fn drop_table_statement(t: Table) -> SqlView {
    with_table(statement("DROP TABLE IF EXISTS "@), t)
}

/// The statement that lists the tables of a schema.
pub open spec fn list_tables_statement(schema: Seq<char>) -> SqlView {
    with_text(
        with_param(
            statement("SELECT table_name::text FROM information_schema.tables WHERE table_schema = "@),
            ParamView::Text(schema),
        ),
        " AND table_type = 'BASE TABLE' ORDER BY table_name"@,
    )
}

/// The statement that stores a document, given as JSON text, and gives
/// back the id of its row.
pub open spec fn insert_statement(t: Table, json: Seq<char>) -> SqlView {
    with_text(
        with_param(
            with_text(with_table(statement("INSERT INTO "@), t), " (data) VALUES ("@),
            ParamView::Text(json),
        ),
        "::jsonb) RETURNING id"@,
    )
}

/// The statement with the order of a sort document, where there is one
/// with a key.
pub open spec fn with_order(q: SqlView, sort: Option<DocView>) -> Result<SqlView, SqlError> {
    match sort {
        Some(s) => if s.len() > 0 {
            with_sort_keys(with_text(q, " ORDER BY "@), s, 0)
        } else {
            Ok(q)
        },
        None => Ok(q),
    }
}

/// The statement with the rows to pass over and the rows to give at most.
pub open spec fn with_window(q: SqlView, skip: u64, limit: Option<u64>) -> SqlView {
    let a = if skip > 0 {
        with_text(with_text(q, " OFFSET "@), decimal(skip as nat))
    } else {
        q
    };
    match limit {
        Some(n) => with_text(with_text(a, " LIMIT "@), decimal(n as nat)),
        None => a,
    }
}

/// The statement that reads what `columns` names of the rows that a
/// filter selects.
pub open spec fn select_statement(
    columns: Seq<char>,
    t: Table,
    filter: DocView,
    sort: Option<DocView>,
    skip: u64,
    limit: Option<u64>,
) -> Result<SqlView, SqlError> {
    match lowered(
        with_text(
            with_table(with_text(with_text(statement("SELECT "@), columns), " FROM "@), t),
            " WHERE "@,
        ),
        filter,
    ) {
        Err(e) => Err(e),
        Ok(a) => match with_order(a, sort) {
            Err(e) => Err(e),
            Ok(b) => Ok(with_window(b, skip, limit)),
        },
    }
}

/// The statement that puts a document, given as JSON text, in the place of
/// the one in the row `id`.
pub open spec fn update_statement(t: Table, json: Seq<char>, id: i64) -> SqlView {
    with_text(
        with_param(
            with_text(
                with_param(
                    with_text(with_table(statement("UPDATE "@), t), " SET data = "@),
                    ParamView::Text(json),
                ),
                "::jsonb WHERE id = "@,
            ),
            ParamView::Text(crate::text::signed_decimal(id as int)),
        ),
        "::bigint"@,
    )
}

/// The statement that removes the rows that a filter selects: all of them
/// where `multi` is set, one of them otherwise.
pub open spec fn delete_statement(t: Table, filter: DocView, multi: bool) -> Result<
    SqlView,
    SqlError,
> {
    if multi {
        lowered(with_text(with_table(statement("DELETE FROM "@), t), " WHERE "@), filter)
    } else {
        match lowered(
            with_text(
                with_table(
                    with_text(
                        with_table(statement("DELETE FROM "@), t),
                        " WHERE ctid IN (SELECT ctid FROM "@,
                    ),
                    t,
                ),
                " WHERE "@,
            ),
            filter,
        ) {
            Err(e) => Err(e),
            Ok(a) => Ok(with_text(a, " LIMIT 1)"@)),
        }
    }
}

/// An exec statement agrees with what the model says.
pub open spec fn statement_matches(r: Result<SqlQuery, SqlError>, m: Result<SqlView, SqlError>) -> bool {
    match r {
        Ok(q) => m == Ok::<SqlView, SqlError>(q@),
        Err(e) => m == Err::<SqlView, SqlError>(e),
    }
}

impl Table {
    /// Whether both names are identifiers.
    pub open spec fn wf(&self) -> bool {
        identifier_ok(encode_utf8(self.schema@)) && identifier_ok(encode_utf8(self.name@))
    }

    /// The table of the collection `collection` of the database
    /// `database`. Dots, hyphens and dollar signs in the names become
    /// underscores; a name that is empty or holds anything else beyond
    /// letters and digits gives `InvalidIdentifier`.
    pub fn new(database: &str, collection: &str) -> (r: Result<Table, SqlError>)
        ensures
            match r {
                Ok(t) => {
                    &&& identifier_ok(encode_utf8(database@))
                    &&& identifier_ok(encode_utf8(collection@))
                    &&& t.schema@ == table_name(database@)
                    &&& t.name@ == table_name(collection@)
                },
                Err(e) => e == SqlError::InvalidIdentifier && (!identifier_ok(
                    encode_utf8(database@),
                ) || !identifier_ok(encode_utf8(collection@))),
            },
    {
        let schema = match sanitize_identifier(database) {
            Ok(s) => s,
            Err(e) => {
                return Err(e);
            },
        };
        let name = match sanitize_identifier(collection) {
            Ok(s) => s,
            Err(e) => {
                return Err(e);
            },
        };
        Ok(Table { schema, name })
    }

    fn push_name(&self, q: &mut SqlQuery)
        ensures
            final(q)@ == with_table(old(q)@, *self),
    {
        q.push_text(self.schema.as_str());
        q.push_text(".");
        q.push_text(self.name.as_str());
    }

    /// The statements that make the collection unless it is there: its
    /// schema, its table, and the index over its JSON column.
    pub fn ensure_collection(&self) -> (r: Vec<SqlQuery>)
        ensures
            r@.len() == 3,
            r@[0]@ == create_schema_statement(*self),
            r@[1]@ == create_table_statement(*self),
            r@[2]@ == create_index_statement(*self),
    {
        let mut schema = SqlQuery::new("CREATE SCHEMA IF NOT EXISTS ");
        schema.push_text(self.schema.as_str());
        let mut table = SqlQuery::new("CREATE TABLE IF NOT EXISTS ");
        self.push_name(&mut table);
        table.push_text(" (id BIGSERIAL PRIMARY KEY, data JSONB NOT NULL, created_at TIMESTAMP DEFAULT CURRENT_TIMESTAMP)");
        let mut index = SqlQuery::new("CREATE INDEX IF NOT EXISTS idx_");
        index.push_text(self.schema.as_str());
        index.push_text("_");
        index.push_text(self.name.as_str());
        index.push_text("_data ON ");
        self.push_name(&mut index);
        index.push_text(" USING GIN (data)");
        let mut out: Vec<SqlQuery> = Vec::new();
        out.push(schema);
        out.push(table);
        out.push(index);
        out
    }

    /// The statement that removes the collection if it is there.
    pub fn drop_collection(&self) -> (r: SqlQuery)
        ensures
            r@ == drop_table_statement(*self),
    {
        let mut q = SqlQuery::new("DROP TABLE IF EXISTS ");
        self.push_name(&mut q);
        q
    }

    /// The statement that stores a document, given as JSON text.
    pub fn insert(&self, json: String) -> (r: SqlQuery)
        ensures
            r@ == insert_statement(*self, json@),
    {
        let mut q = SqlQuery::new("INSERT INTO ");
        self.push_name(&mut q);
        q.push_text(" (data) VALUES (");
        q.push_param(SqlParam::Text(json));
        q.push_text("::jsonb) RETURNING id");
        q
    }

    fn select(
        &self,
        columns: &str,
        filter: &Document,
        sort: Option<&Document>,
        skip: u64,
        limit: Option<u64>,
    ) -> (r: Result<SqlQuery, SqlError>)
        ensures
            statement_matches(
                r,
                select_statement(
                    columns@,
                    *self,
                    filter@,
                    crate::storage::maybe_doc(sort),
                    skip,
                    limit,
                ),
            ),
    {
        let mut q = SqlQuery::new("SELECT ");
        q.push_text(columns);
        q.push_text(" FROM ");
        self.push_name(&mut q);
        q.push_text(" WHERE ");
        match push_filter(&mut q, filter) {
            Ok(()) => {},
            Err(e) => {
                return Err(e);
            },
        }
        match sort {
            Some(s) => {
                if s.len() > 0 {
                    q.push_text(" ORDER BY ");
                    match push_sort_keys(&mut q, s) {
                        Ok(()) => {},
                        Err(e) => {
                            return Err(e);
                        },
                    }
                }
            },
            None => {},
        }
        if skip > 0 {
            q.push_text(" OFFSET ");
            push_number(&mut q, skip);
        }
        match limit {
            Some(n) => {
                q.push_text(" LIMIT ");
                push_number(&mut q, n);
            },
            None => {},
        }
        Ok(q)
    }

    /// The statement that reads the documents that a filter selects, as
    /// JSON text, in the order of `sort`, without the first `skip` and
    /// at most `limit` of them.
    pub fn find(&self, filter: &Document, sort: Option<&Document>, skip: u64, limit: Option<u64>) -> (r:
        Result<SqlQuery, SqlError>)
        ensures
            statement_matches(
                r,
                select_statement(
                    "data::text"@,
                    *self,
                    filter@,
                    crate::storage::maybe_doc(sort),
                    skip,
                    limit,
                ),
            ),
    {
        self.select("data::text", filter, sort, skip, limit)
    }

    /// The statement that reads the rows that an update is to change, each
    /// with its id: all that the filter selects where `multi` is set, the
    /// first one otherwise.
    pub fn find_for_update(&self, filter: &Document, multi: bool) -> (r: Result<SqlQuery, SqlError>)
        ensures
            statement_matches(
                r,
                select_statement(
                    "id, data::text"@,
                    *self,
                    filter@,
                    Some(seq![("_id"@, crate::bson::BsonView::Int32(1))]),
                    0,
                    if multi {
                        None
                    } else {
                        Some(1u64)
                    },
                ),
            ),
    {
        let mut by_id = Document::new();
        by_id.push("_id".to_owned(), crate::bson::Bson::Int32(1));
        assert(by_id@ =~= seq![("_id"@, crate::bson::BsonView::Int32(1))]);
        let limit: Option<u64> = if multi {
            None
        } else {
            Some(1)
        };
        self.select("id, data::text", filter, Some(&by_id), 0, limit)
    }

    /// The statement that counts the documents that a filter selects.
    pub fn count(&self, filter: &Document) -> (r: Result<SqlQuery, SqlError>)
        ensures
            statement_matches(
                r,
                select_statement("COUNT(*)"@, *self, filter@, None, 0, None),
            ),
    {
        self.select("COUNT(*)", filter, None, 0, None)
    }

    /// The statement that puts a document, given as JSON text, in the
    /// place of the one in the row `id`.
    pub fn update(&self, json: String, id: i64) -> (r: SqlQuery)
        ensures
            r@ == update_statement(*self, json@, id),
    {
        let mut q = SqlQuery::new("UPDATE ");
        self.push_name(&mut q);
        q.push_text(" SET data = ");
        q.push_param(SqlParam::Text(json));
        q.push_text("::jsonb WHERE id = ");
        q.push_param(SqlParam::Text(crate::text::i64_to_string(id)));
        q.push_text("::bigint");
        q
    }

    /// The statement that removes the documents that a filter selects:
    /// all of them where `multi` is set, one of them otherwise.
    pub fn delete(&self, filter: &Document, multi: bool) -> (r: Result<SqlQuery, SqlError>)
        ensures
            statement_matches(r, delete_statement(*self, filter@, multi)),
    {
        let mut q = SqlQuery::new("DELETE FROM ");
        self.push_name(&mut q);
        if !multi {
            q.push_text(" WHERE ctid IN (SELECT ctid FROM ");
            self.push_name(&mut q);
        }
        q.push_text(" WHERE ");
        match push_filter(&mut q, filter) {
            Ok(()) => {},
            Err(e) => {
                return Err(e);
            },
        }
        if !multi {
            q.push_text(" LIMIT 1)");
        }
        Ok(q)
    }
}

/// The statement that lists the collections of a database: the tables of
/// its schema.
pub fn list_collections(database: &str) -> (r: Result<SqlQuery, SqlError>)
    ensures
        match r {
            Ok(q) => identifier_ok(encode_utf8(database@)) && q@ == list_tables_statement(
                table_name(database@),
            ),
            Err(e) => e == SqlError::InvalidIdentifier && !identifier_ok(encode_utf8(database@)),
        },
{
    let schema = match sanitize_identifier(database) {
        Ok(s) => s,
        Err(e) => {
            return Err(e);
        },
    };
    let mut q = SqlQuery::new(
        "SELECT table_name::text FROM information_schema.tables WHERE table_schema = ",
    );
    q.push_param(SqlParam::Text(schema));
    q.push_text(" AND table_type = 'BASE TABLE' ORDER BY table_name");
    Ok(q)
}

/// The statement that lists the databases: the schemas that are not the
/// backend's own.
pub fn list_databases() -> (r: SqlQuery)
    ensures
        r@ == statement(
            "SELECT schema_name::text FROM information_schema.schemata WHERE schema_name NOT IN ('information_schema', 'public') AND schema_name NOT LIKE 'pg\\_%' ORDER BY schema_name"@,
        ),
{
    SqlQuery::new(
        "SELECT schema_name::text FROM information_schema.schemata WHERE schema_name NOT IN ('information_schema', 'public') AND schema_name NOT LIKE 'pg\\_%' ORDER BY schema_name",
    )
}

} // verus!
