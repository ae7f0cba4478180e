use fauxdb::aggregation::AggregationError;
use fauxdb::aggregation_pipeline::{AggregationPipeline, PipelineStage, UnwindOptions};
use fauxdb::bson::{Bson, Document};
use fauxdb::sql::{SqlError, SqlParam, SqlQuery};
use fauxdb::statements::{list_collections, list_databases, Table};

fn doc(entries: Vec<(&str, Bson)>) -> Document {
    let mut d = Document::new();
    for (k, v) in entries {
        d.push(k.to_string(), v);
    }
    d
}

fn sub(entries: Vec<(&str, Bson)>) -> Bson {
    Bson::Document(doc(entries))
}

fn text(s: &str) -> Bson {
    Bson::String(s.to_string())
}

fn t(s: &str) -> SqlParam {
    SqlParam::Text(s.to_string())
}

fn pipeline(stages: Vec<Document>) -> AggregationPipeline {
    let items: Vec<Bson> = stages.into_iter().map(Bson::Document).collect();
    AggregationPipeline::from_bson_array(&items).unwrap()
}

#[test]
fn whole_pipeline_as_one_statement() {
    let p = pipeline(vec![
        doc(vec![("$match", sub(vec![("name", text("A"))]))]),
        doc(vec![("$sort", sub(vec![("age", Bson::Int32(-1)), ("name", Bson::Int32(1))]))]),
        doc(vec![("$skip", Bson::Int32(2))]),
        doc(vec![("$limit", Bson::Int32(5))]),
        doc(vec![("$project", sub(vec![("name", Bson::Int32(1))]))]),
    ]);
    assert!(p.is_pushdown());
    let (q, n) = p.to_sql("my-db.users").unwrap();
    assert_eq!(n, 5);
    assert_eq!(
        q.text,
        "WITH s0 AS (SELECT data FROM my_db_users), \
         s1 AS (SELECT data FROM s0 WHERE data ->> $1 = $2), \
         s2 AS (SELECT data FROM s1 ORDER BY data -> $3 DESC, data -> $4 ASC), \
         s3 AS (SELECT data FROM s2 OFFSET 2), \
         s4 AS (SELECT data FROM s3 LIMIT 5), \
         s5 AS (SELECT (SELECT COALESCE(jsonb_object_agg(key, value), '{}'::jsonb) \
         FROM jsonb_each(data) WHERE key = $5 OR key = $6 OR FALSE) AS data FROM s4) \
         SELECT data::text FROM s5"
    );
    assert_eq!(q.params, vec![t("name"), t("A"), t("age"), t("name"), t("name"), t("_id")]);
}

#[test]
fn stages_keep_their_order() {
    let a = pipeline(vec![doc(vec![("$skip", Bson::Int32(1))]), doc(vec![("$limit", Bson::Int32(2))])]);
    let b = pipeline(vec![doc(vec![("$limit", Bson::Int32(2))]), doc(vec![("$skip", Bson::Int32(1))])]);
    let (qa, _) = a.to_sql("t").unwrap();
    let (qb, _) = b.to_sql("t").unwrap();
    assert_eq!(
        qa.text,
        "WITH s0 AS (SELECT data FROM t), s1 AS (SELECT data FROM s0 OFFSET 1), \
         s2 AS (SELECT data FROM s1 LIMIT 2) SELECT data::text FROM s2"
    );
    assert_eq!(
        qb.text,
        "WITH s0 AS (SELECT data FROM t), s1 AS (SELECT data FROM s0 LIMIT 2), \
         s2 AS (SELECT data FROM s1 OFFSET 1) SELECT data::text FROM s2"
    );
}

#[test]
fn lowering_stops_at_the_first_stage_that_stays_in_the_process() {
    let p = pipeline(vec![
        doc(vec![("$match", sub(vec![("a", Bson::Int32(1))]))]),
        doc(vec![("$group", sub(vec![("_id", text("$a"))]))]),
        doc(vec![("$limit", Bson::Int32(1))]),
    ]);
    assert!(!p.is_pushdown());
    let (q, n) = p.to_sql("t").unwrap();
    assert_eq!(n, 1);
    assert_eq!(
        q.text,
        "WITH s0 AS (SELECT data FROM t), s1 AS (SELECT data FROM s0 WHERE data ->> $1 = $2) \
         SELECT data::text FROM s1"
    );
    let (q, n) = AggregationPipeline::new().to_sql("t").unwrap();
    assert_eq!(n, 0);
    assert_eq!(q.text, "WITH s0 AS (SELECT data FROM t) SELECT data::text FROM s0");
    assert!(q.params.is_empty());
    // a projection with an expression is not handed over
    let p = pipeline(vec![doc(vec![("$project", sub(vec![("a", text("$b"))]))])]);
    assert_eq!(p.to_sql("t").unwrap().1, 0);
}

#[test]
fn exclusion_takes_fields_away() {
    let p = pipeline(vec![doc(vec![(
        "$project",
        sub(vec![("secret", Bson::Int32(0)), ("_id", Bson::Boolean(false))]),
    )])]);
    let (q, _) = p.to_sql("t").unwrap();
    assert_eq!(
        q.text,
        "WITH s0 AS (SELECT data FROM t), s1 AS (SELECT data - $1 - $2 AS data FROM s0) \
         SELECT data::text FROM s1"
    );
    assert_eq!(q.params, vec![t("secret"), t("_id")]);
}

#[test]
fn statements_that_cannot_be_written() {
    let ok = pipeline(vec![doc(vec![("$limit", Bson::Int32(1))])]);
    assert_eq!(ok.to_sql("").err(), Some(SqlError::InvalidIdentifier));
    assert_eq!(ok.to_sql("a b").err(), Some(SqlError::InvalidIdentifier));
    assert_eq!(ok.to_sql("t; DROP TABLE x").err(), Some(SqlError::InvalidIdentifier));
    let bad = pipeline(vec![doc(vec![("$match", sub(vec![("a", sub(vec![("$bogus", Bson::Int32(1))]))]))])]);
    assert_eq!(bad.to_sql("t").err(), Some(SqlError::UnsupportedOperator));
    let bad = pipeline(vec![doc(vec![("$sort", sub(vec![("a", Bson::Int32(2))]))])]);
    assert_eq!(bad.to_sql("t").err(), Some(SqlError::BadSortDirection));
    let bad = pipeline(vec![doc(vec![(
        "$project",
        sub(vec![("a", Bson::Int32(1)), ("b", Bson::Int32(0))]),
    )])]);
    assert_eq!(bad.to_sql("t").err(), Some(SqlError::BadOperand));
    let mut negative = AggregationPipeline::new();
    negative.stages.push(PipelineStage::Limit(-1));
    assert_eq!(negative.to_sql("t").err(), Some(SqlError::BadOperand));
}

#[test]
fn parts_of_a_statement() {
    let p = AggregationPipeline::new();
    let mut q = SqlQuery::new("");
    p.filter_to_sql(&mut q, &doc(vec![("a", Bson::Int32(1)), ("b", text("x"))])).unwrap();
    assert_eq!(q.params.len(), 4);
    let mut q = SqlQuery::new("");
    p.field_condition_to_sql(&mut q, "age", &sub(vec![("$exists", Bson::Boolean(true))])).unwrap();
    assert_eq!(q.text, "data ? $1");
    assert_eq!(q.params, vec![t("age")]);
    assert_eq!(p.bson_to_sql_value(&text("it's")), Ok(t("it's")));
    assert_eq!(p.bson_to_sql_value(&Bson::Int32(-5)), Ok(t("-5")));
    assert_eq!(p.bson_to_sql_value(&Bson::Boolean(true)), Ok(t("true")));
    assert_eq!(
        p.bson_to_sql_value(&Bson::Double(f64::to_bits(1.5))),
        Ok(SqlParam::Double(f64::to_bits(1.5)))
    );
    assert_eq!(p.bson_to_sql_value(&Bson::Array(vec![])), Err(SqlError::UnsupportedLiteral));
    let mut q = SqlQuery::new("ORDER BY ");
    p.sort_to_sql(&mut q, &doc(vec![("a", Bson::Int64(1))])).unwrap();
    assert_eq!(q.text, "ORDER BY data -> $1 ASC");
    let mut q = SqlQuery::new("");
    assert_eq!(
        p.sort_to_sql(&mut q, &doc(vec![("a", text("up"))])),
        Err(SqlError::BadSortDirection)
    );
    let mut q = SqlQuery::new("SELECT ");
    p.project_to_sql(&mut q, &doc(vec![("a", Bson::Int32(0))])).unwrap();
    assert_eq!(q.text, "SELECT data - $1 AS data");
}

#[test]
fn grouping_by_a_field_in_the_backend() {
    let p = AggregationPipeline::new();
    let mut inner = SqlQuery::new("SELECT data FROM t WHERE ");
    p.filter_to_sql(&mut inner, &doc(vec![("a", Bson::Int32(1))])).unwrap();
    let q = p.handle_group_stage(inner, &doc(vec![("_id", text("city"))])).unwrap();
    assert_eq!(
        q.text,
        "SELECT grouped.data ->> $3 AS key, COUNT(*) AS count FROM \
         (SELECT data FROM t WHERE data ->> $1 = $2) AS grouped GROUP BY grouped.data ->> $3"
    );
    assert_eq!(q.params, vec![t("a"), t("1"), t("city")]);
    assert_eq!(
        p.handle_group_stage(SqlQuery::new("x"), &doc(vec![("_id", sub(vec![]))])).err(),
        Some(SqlError::BadOperand)
    );
    assert_eq!(
        p.handle_group_stage(SqlQuery::new("x"), &Document::new()).err(),
        Some(SqlError::BadOperand)
    );
}

#[test]
fn one_stage_on_one_document() {
    let p = AggregationPipeline::new();
    let d = doc(vec![("a", Bson::Int32(1)), ("tags", Bson::Array(vec![text("x"), text("y")]))]);
    let same = |d: &Document| vec![d.clone_document()];
    assert_eq!(p.execute_stage(&PipelineStage::Match(doc(vec![("a", Bson::Int32(1))])), &d), Ok(same(&d)));
    assert_eq!(p.execute_stage(&PipelineStage::Match(doc(vec![("a", Bson::Int32(2))])), &d), Ok(vec![]));
    assert_eq!(p.execute_stage(&PipelineStage::Limit(0), &d), Ok(vec![]));
    assert_eq!(p.execute_stage(&PipelineStage::Limit(3), &d), Ok(same(&d)));
    assert_eq!(p.execute_stage(&PipelineStage::Skip(1), &d), Ok(vec![]));
    assert_eq!(p.execute_stage(&PipelineStage::Skip(0), &d), Ok(same(&d)));
    assert_eq!(
        p.execute_stage(&PipelineStage::Limit(-1), &d),
        Err(AggregationError::InvalidArgument)
    );
    assert_eq!(p.execute_stage(&PipelineStage::Sort(doc(vec![("a", Bson::Int32(1))])), &d), Ok(same(&d)));
    assert_eq!(
        p.execute_stage(&PipelineStage::Project(doc(vec![("a", Bson::Int32(1))])), &d),
        Ok(vec![doc(vec![("a", Bson::Int32(1))])])
    );
    assert_eq!(
        p.execute_stage(&PipelineStage::Count("n".to_string()), &d),
        Ok(vec![doc(vec![("n", Bson::Int32(1))])])
    );
    assert_eq!(
        p.execute_stage(&PipelineStage::Group(doc(vec![("_id", text("$a"))])), &d),
        Ok(vec![doc(vec![("_id", Bson::Int32(1))])])
    );
    let unwind = PipelineStage::Unwind(UnwindOptions {
        path: "$tags".to_string(),
        include_array_index: Some("i".to_string()),
        preserve_null_and_empty_arrays: Some(true),
    });
    assert_eq!(
        p.execute_stage(&unwind, &d),
        Ok(vec![
            doc(vec![("a", Bson::Int32(1)), ("tags", text("x")), ("i", Bson::Int64(0))]),
            doc(vec![("a", Bson::Int32(1)), ("tags", text("y")), ("i", Bson::Int64(1))]),
        ])
    );
    let plain = doc(vec![("a", Bson::Int32(1))]);
    assert_eq!(p.execute_stage(&unwind, &plain), Ok(same(&plain)));
    assert_eq!(
        p.execute_stage(&PipelineStage::Out("x".to_string()), &d),
        Err(AggregationError::NotImplemented)
    );
    assert_eq!(
        p.execute_stage(&PipelineStage::Facet(Document::new()), &d),
        Err(AggregationError::NotImplemented)
    );
}

#[test]
fn statements_of_a_collection() {
    let table = Table::new("shop", "order-items").unwrap();
    assert_eq!(table, Table { schema: "shop".to_string(), name: "order_items".to_string() });
    let made = table.ensure_collection();
    let texts: Vec<&str> = made.iter().map(|q| q.text.as_str()).collect();
    assert_eq!(
        texts,
        vec![
            "CREATE SCHEMA IF NOT EXISTS shop",
            "CREATE TABLE IF NOT EXISTS shop.order_items (id BIGSERIAL PRIMARY KEY, data JSONB NOT NULL, created_at TIMESTAMP DEFAULT CURRENT_TIMESTAMP)",
            "CREATE INDEX IF NOT EXISTS idx_shop_order_items_data ON shop.order_items USING GIN (data)",
        ]
    );
    assert!(made.iter().all(|q| q.params.is_empty()));
    assert_eq!(table.drop_collection().text, "DROP TABLE IF EXISTS shop.order_items");

    let q = table.insert("{\"a\":1}".to_string());
    assert_eq!(q.text, "INSERT INTO shop.order_items (data) VALUES ($1::jsonb) RETURNING id");
    assert_eq!(q.params, vec![t("{\"a\":1}")]);

    let q = table
        .find(
            &doc(vec![("a", sub(vec![("$gt", Bson::Int32(3))]))]),
            Some(&doc(vec![("b", Bson::Int32(-1))])),
            10,
            Some(5),
        )
        .unwrap();
    assert_eq!(
        q.text,
        "SELECT data::text FROM shop.order_items WHERE (data ->> $1)::numeric > $2::numeric \
         ORDER BY data -> $3 DESC OFFSET 10 LIMIT 5"
    );
    assert_eq!(q.params, vec![t("a"), t("3"), t("b")]);
    let q = table.find(&Document::new(), None, 0, None).unwrap();
    assert_eq!(q.text, "SELECT data::text FROM shop.order_items WHERE TRUE");

    let q = table.count(&doc(vec![("a", Bson::Int32(1))])).unwrap();
    assert_eq!(q.text, "SELECT COUNT(*) FROM shop.order_items WHERE data ->> $1 = $2");

    let q = table.find_for_update(&Document::new(), false).unwrap();
    assert_eq!(
        q.text,
        "SELECT id, data::text FROM shop.order_items WHERE TRUE ORDER BY data -> $1 ASC LIMIT 1"
    );
    let q = table.find_for_update(&Document::new(), true).unwrap();
    assert_eq!(q.text, "SELECT id, data::text FROM shop.order_items WHERE TRUE ORDER BY data -> $1 ASC");

    let q = table.update("{}".to_string(), -7);
    assert_eq!(q.text, "UPDATE shop.order_items SET data = $1::jsonb WHERE id = $2::bigint");
    assert_eq!(q.params, vec![t("{}"), t("-7")]);

    let q = table.delete(&doc(vec![("a", Bson::Int32(1))]), true).unwrap();
    assert_eq!(q.text, "DELETE FROM shop.order_items WHERE data ->> $1 = $2");
    let q = table.delete(&doc(vec![("a", Bson::Int32(1))]), false).unwrap();
    assert_eq!(
        q.text,
        "DELETE FROM shop.order_items WHERE ctid IN (SELECT ctid FROM shop.order_items \
         WHERE data ->> $1 = $2 LIMIT 1)"
    );
    assert_eq!(
        table.delete(&doc(vec![("$x", Bson::Int32(1))]), true).err(),
        Some(SqlError::UnsupportedOperator)
    );
    assert_eq!(
        table.find(&Document::new(), Some(&doc(vec![("a", Bson::Int32(0))])), 0, None).err(),
        Some(SqlError::BadSortDirection)
    );
}

#[test]
fn names_are_checked_before_they_reach_a_statement() {
    assert_eq!(Table::new("", "c").err(), Some(SqlError::InvalidIdentifier));
    assert_eq!(Table::new("db", "").err(), Some(SqlError::InvalidIdentifier));
    assert_eq!(Table::new("db", "c\"; --").err(), Some(SqlError::InvalidIdentifier));
    assert_eq!(Table::new("d b", "c").err(), Some(SqlError::InvalidIdentifier));
    let q = list_collections("my.db").unwrap();
    assert_eq!(
        q.text,
        "SELECT table_name::text FROM information_schema.tables WHERE table_schema = $1 \
         AND table_type = 'BASE TABLE' ORDER BY table_name"
    );
    assert_eq!(q.params, vec![t("my_db")]);
    assert_eq!(list_collections("x'y").err(), Some(SqlError::InvalidIdentifier));
    assert!(list_databases().text.starts_with("SELECT schema_name::text FROM information_schema.schemata"));
    assert!(list_databases().params.is_empty());
}
