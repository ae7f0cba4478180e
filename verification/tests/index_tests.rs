use fauxdb::bson::{Bson, Document};
use fauxdb::command_processor::CommandProcessor;
use fauxdb::indexing::{
    determine_index_type, field_has_index, generate_create_index_sql, generate_drop_index_sql,
    generate_index_name, partial_filter_to_sql, quote_literal, validate_index_spec, IndexError,
    IndexManager, IndexOptions, IndexSpec, IndexType,
};
use fauxdb::store::ObjectIdGenerator;

fn doc(entries: Vec<(&str, Bson)>) -> Document {
    let mut d = Document::new();
    for (k, v) in entries {
        d.push(k.to_string(), v);
    }
    d
}

fn sub(entries: Vec<(&str, Bson)>) -> Bson {
    Bson::Document(doc(entries))
}

fn text(s: &str) -> Bson {
    Bson::String(s.to_string())
}

fn one() -> Bson {
    Bson::Double(f64::to_bits(1.0))
}

fn zero() -> Bson {
    Bson::Double(f64::to_bits(0.0))
}

fn index(key: Vec<(&str, Bson)>) -> IndexSpec {
    IndexSpec {
        name: String::new(),
        key: doc(key),
        options: IndexOptions::new(),
        created_at: 0,
        collection: "users".to_string(),
        database: "shop".to_string(),
    }
}

fn named(mut s: IndexSpec) -> IndexSpec {
    s.name = generate_index_name(&s);
    s
}

#[test]
fn index_keys_are_checked() {
    assert_eq!(validate_index_spec(&index(vec![])), Err(IndexError::EmptyKey));
    assert_eq!(validate_index_spec(&index(vec![("a", Bson::Int32(1))])), Ok(()));
    assert_eq!(
        validate_index_spec(&index(vec![("a", Bson::Int32(1)), ("b", Bson::Int64(-1))])),
        Ok(())
    );
    assert_eq!(
        validate_index_spec(&index(vec![("$a", Bson::Int32(1))])),
        Err(IndexError::OperatorField)
    );
    assert_eq!(
        validate_index_spec(&index(vec![("a", Bson::Int32(2))])),
        Err(IndexError::BadDirection)
    );
    assert_eq!(
        validate_index_spec(&index(vec![("a", text("sideways"))])),
        Err(IndexError::BadDirection)
    );
    assert_eq!(
        validate_index_spec(&index(vec![("a", Bson::Int32(1)), ("$b", Bson::Int32(7))])),
        Err(IndexError::OperatorField)
    );
    assert_eq!(validate_index_spec(&index(vec![("a", text("text"))])), Ok(()));
    assert_eq!(
        validate_index_spec(&index(vec![("a", text("text")), ("b", Bson::Int32(1))])),
        Err(IndexError::TextNotAlone)
    );
    assert_eq!(
        validate_index_spec(&index(vec![("a", text("2dsphere")), ("b", text("2dsphere"))])),
        Err(IndexError::TooManyGeoFields)
    );
    assert_eq!(
        validate_index_spec(&index(vec![("a", text("2dsphere")), ("b", Bson::Int32(1))])),
        Ok(())
    );
    let mut ttl = index(vec![("a", Bson::Int32(1)), ("b", Bson::Int32(1))]);
    ttl.options.expire_after_seconds = Some(60);
    assert_eq!(validate_index_spec(&ttl), Err(IndexError::TtlNeedsOneField));
    let mut ttl = index(vec![("a", text("hashed"))]);
    ttl.options.expire_after_seconds = Some(60);
    assert_eq!(validate_index_spec(&ttl), Err(IndexError::TtlNeedsDirection));
    let mut ttl = index(vec![("a", Bson::Int32(-1))]);
    ttl.options.expire_after_seconds = Some(60);
    assert_eq!(validate_index_spec(&ttl), Ok(()));
}

#[test]
fn index_names() {
    assert_eq!(generate_index_name(&index(vec![("a", Bson::Int32(1))])), "idx_a_1");
    assert_eq!(
        generate_index_name(&index(vec![
            ("a", Bson::Int32(1)),
            ("b", Bson::Int32(-1)),
            ("c", text("text")),
            ("d", text("2dsphere")),
            ("e", text("hashed")),
            ("f", Bson::Null),
        ])),
        "idx_a_1_b_-1_c_text_d_2dsphere_e_hashed_f_1"
    );
    assert_eq!(generate_index_name(&index(vec![])), "idx_");
    let mut given = index(vec![("a", Bson::Int32(1))]);
    given.options.name = Some("by_a".to_string());
    assert_eq!(generate_index_name(&given), "by_a");
}

#[test]
fn index_kinds() {
    assert_eq!(determine_index_type(&index(vec![("a", Bson::Int32(1))])), IndexType::Ascending);
    assert_eq!(determine_index_type(&index(vec![("a", Bson::Int32(-1))])), IndexType::Ascending);
    assert_eq!(determine_index_type(&index(vec![("a", text("text"))])), IndexType::Text);
    assert_eq!(
        determine_index_type(&index(vec![("a", Bson::Int32(1)), ("b", text("2dsphere"))])),
        IndexType::Geospatial2dSphere
    );
    assert_eq!(determine_index_type(&index(vec![("a", text("2d"))])), IndexType::Geospatial2d);
    assert_eq!(determine_index_type(&index(vec![("a", text("hashed"))])), IndexType::Hashed);
    let mut s = index(vec![("a", text("text"))]);
    s.options.partial_filter_expression = Some(Document::new());
    assert_eq!(determine_index_type(&s), IndexType::Partial);
    s.options.expire_after_seconds = Some(1);
    assert_eq!(determine_index_type(&s), IndexType::TTL);
    s.options.sparse = Some(true);
    assert_eq!(determine_index_type(&s), IndexType::Sparse);
    s.options.unique = Some(true);
    assert_eq!(determine_index_type(&s), IndexType::Unique);
    s.options.unique = Some(false);
    assert_eq!(determine_index_type(&s), IndexType::Sparse);
}

#[test]
fn literals_are_quoted() {
    assert_eq!(quote_literal("plain"), Ok("'plain'".to_string()));
    assert_eq!(quote_literal(""), Ok("''".to_string()));
    assert_eq!(quote_literal("it's"), Ok("'it''s'".to_string()));
    assert_eq!(quote_literal("''"), Ok("''''''".to_string()));
    assert_eq!(quote_literal("a'; DROP TABLE x; --"), Ok("'a''; DROP TABLE x; --'".to_string()));
    assert_eq!(quote_literal("h\u{e9}llo \u{1f600}"), Ok("'h\u{e9}llo \u{1f600}'".to_string()));
    assert_eq!(quote_literal("a\u{0}b"), Err(IndexError::BadLiteral));
}

#[test]
fn statements_for_indexes() {
    assert_eq!(
        generate_create_index_sql(&named(index(vec![("a", Bson::Int32(1)), ("b.c", Bson::Int32(-1))]))),
        Ok("CREATE INDEX IF NOT EXISTS shop_users_idx_a_1_b_c__1 ON shop.users \
            ((data ->> 'a'), (data ->> 'b.c') DESC)"
            .to_string())
    );
    let mut unique = index(vec![("e'mail", Bson::Int32(1))]);
    unique.options.unique = Some(true);
    unique.options.name = Some("by_email".to_string());
    unique.options.partial_filter_expression = Some(doc(vec![
        ("e'mail", sub(vec![("$exists", Bson::Boolean(true))])),
        ("kind", text("o'k")),
        ("n", sub(vec![("$ne", Bson::Int32(-3))])),
        ("gone", sub(vec![("$exists", Bson::Boolean(false))])),
    ]));
    assert_eq!(
        generate_create_index_sql(&named(unique)),
        Ok("CREATE UNIQUE INDEX IF NOT EXISTS shop_users_by_email ON shop.users \
            ((data ->> 'e''mail')) WHERE data ? 'e''mail' AND data ->> 'kind' = 'o''k' \
            AND data ->> 'n' IS DISTINCT FROM '-3' AND NOT (data ? 'gone')"
            .to_string())
    );
    assert_eq!(
        generate_create_index_sql(&named(index(vec![("body", text("text"))]))),
        Ok("CREATE INDEX IF NOT EXISTS shop_users_idx_body_text ON shop.users USING GIN \
            (to_tsvector('english', data ->> 'body'))"
            .to_string())
    );
    assert_eq!(
        generate_create_index_sql(&named(index(vec![("k", text("hashed"))]))),
        Ok("CREATE INDEX IF NOT EXISTS shop_users_idx_k_hashed ON shop.users USING HASH \
            ((data ->> 'k'))"
            .to_string())
    );
    assert_eq!(
        generate_create_index_sql(&named(index(vec![("at", text("2dsphere"))]))),
        Ok("CREATE INDEX IF NOT EXISTS shop_users_idx_at_2dsphere ON shop.users USING GIN \
            ((data -> 'at'))"
            .to_string())
    );
    assert_eq!(
        generate_drop_index_sql("shop", "users", "idx_a_1"),
        Ok("DROP INDEX IF EXISTS shop.shop_users_idx_a_1".to_string())
    );
}

#[test]
fn statements_for_indexes_that_cannot_be_written() {
    let mut bad = named(index(vec![("a", Bson::Int32(1))]));
    bad.collection = "us ers".to_string();
    assert_eq!(generate_create_index_sql(&bad), Err(IndexError::InvalidIdentifier));
    let mut bad = index(vec![("a", Bson::Int32(1))]);
    bad.options.name = Some("x y".to_string());
    assert_eq!(generate_create_index_sql(&named(bad)), Err(IndexError::InvalidIdentifier));
    assert_eq!(
        generate_create_index_sql(&named(index(vec![("a", Bson::Int32(5))]))),
        Err(IndexError::BadDirection)
    );
    assert_eq!(
        generate_create_index_sql(&named(index(vec![("nul\u{0}", Bson::Int32(1))]))),
        Err(IndexError::InvalidIdentifier)
    );
    let mut nul = index(vec![("nul\u{0}", Bson::Int32(1))]);
    nul.options.name = Some("n".to_string());
    assert_eq!(generate_create_index_sql(&named(nul)), Err(IndexError::BadLiteral));
    assert_eq!(generate_drop_index_sql("shop", "users", "a b"), Err(IndexError::InvalidIdentifier));
    assert_eq!(partial_filter_to_sql(&Document::new()), Ok("TRUE".to_string()));
    assert_eq!(
        partial_filter_to_sql(&doc(vec![("a", sub(vec![("$gt", Bson::Int32(1))]))])),
        Err(IndexError::UnsupportedPartialFilter)
    );
    assert_eq!(
        partial_filter_to_sql(&doc(vec![("a", sub(vec![]))])),
        Err(IndexError::UnsupportedPartialFilter)
    );
    assert_eq!(
        partial_filter_to_sql(&doc(vec![("a", Bson::Double(f64::to_bits(1.5)))])),
        Err(IndexError::UnsupportedPartialFilter)
    );
    assert_eq!(
        partial_filter_to_sql(&doc(vec![("a", sub(vec![("$exists", Bson::Int32(1))]))])),
        Err(IndexError::UnsupportedPartialFilter)
    );
    assert_eq!(
        partial_filter_to_sql(&doc(vec![("a", text("x\u{0}"))])),
        Err(IndexError::BadLiteral)
    );
    assert_eq!(
        partial_filter_to_sql(&doc(vec![("a", Bson::Boolean(true)), ("b", Bson::Int64(7))])),
        Ok("data ->> 'a' = 'true' AND data ->> 'b' = '7'".to_string())
    );
}

#[test]
fn index_manager_keeps_the_indexes() {
    let mut m = IndexManager::new();
    assert_eq!(m.create_index(index(vec![("a", Bson::Int32(1))]), 5), Ok(true));
    assert_eq!(m.create_index(index(vec![("a", Bson::Int32(1))]), 6), Ok(false));
    assert_eq!(m.create_index(index(vec![("b", Bson::Int32(-1))]), 7), Ok(true));
    let mut other = index(vec![("a", Bson::Int32(1))]);
    other.collection = "orders".to_string();
    assert_eq!(m.create_index(other, 8), Ok(true));
    assert_eq!(m.create_index(index(vec![]), 9), Err(IndexError::EmptyKey));
    assert_eq!(m.indexes.len(), 3);
    assert_eq!(m.indexes[0].name, "idx_a_1");
    assert_eq!(m.indexes[0].created_at, 5);
    assert_eq!(m.count("shop", "users"), 2);
    assert_eq!(m.count("shop", "orders"), 1);
    assert_eq!(m.count("shop", "none"), 0);
    assert_eq!(m.find("shop", "users", "idx_b_-1"), Some(1));
    assert_eq!(m.find("shop", "orders", "idx_b_-1"), None);
    assert!(field_has_index(&m.indexes, "b"));
    assert!(!field_has_index(&m.indexes, "c"));

    let listed = m.list_indexes("shop", "users");
    assert_eq!(
        listed,
        vec![
            doc(vec![
                ("v", Bson::Int32(2)),
                ("key", sub(vec![("_id", Bson::Int32(1))])),
                ("name", text("_id_")),
            ]),
            doc(vec![
                ("v", Bson::Int32(2)),
                ("key", sub(vec![("a", Bson::Int32(1))])),
                ("name", text("idx_a_1")),
            ]),
            doc(vec![
                ("v", Bson::Int32(2)),
                ("key", sub(vec![("b", Bson::Int32(-1))])),
                ("name", text("idx_b_-1")),
            ]),
        ]
    );
    assert_eq!(m.list_indexes("shop", "none").len(), 1);

    assert_eq!(m.drop_index("shop", "users", "_id_"), Err(IndexError::CannotDropIdIndex));
    assert_eq!(m.drop_index("shop", "users", "nothing"), Err(IndexError::NotFound));
    assert_eq!(m.drop_index("shop", "users", "idx_a_1"), Ok(()));
    assert_eq!(m.count("shop", "users"), 1);
    assert_eq!(m.count("shop", "orders"), 1);
    assert_eq!(m.create_index(index(vec![("c", Bson::Int32(1))]), 10), Ok(true));
    assert_eq!(m.drop_collection_indexes("shop", "users"), 2);
    assert_eq!(m.indexes.len(), 1);
    assert_eq!(m.indexes[0].collection, "orders");
    assert_eq!(m.drop_collection_indexes("shop", "users"), 0);
}

fn processor() -> CommandProcessor {
    CommandProcessor::new("test", ObjectIdGenerator::new(1, [0; 5], 0), 1)
}

fn create_indexes(coll: &str, indexes: Vec<Bson>) -> Document {
    doc(vec![
        ("createIndexes", text(coll)),
        ("indexes", Bson::Array(indexes)),
        ("$db", text("db")),
    ])
}

#[test]
fn indexes_over_the_wire_commands() {
    let mut p = processor();
    let reply = p.process_command(
        &create_indexes(
            "users",
            vec![
                sub(vec![("key", sub(vec![("email", Bson::Int32(1))])), ("name", text("by_email")), ("unique", Bson::Boolean(true))]),
                sub(vec![("key", sub(vec![("seen", Bson::Int32(-1))])), ("expireAfterSeconds", Bson::Int32(60)), ("sparse", Bson::Boolean(true))]),
            ],
        ),
        1000,
    );
    assert_eq!(
        reply,
        doc(vec![("numIndexesBefore", Bson::Int32(1)), ("numIndexesAfter", Bson::Int32(3)), ("ok", one())])
    );
    // the same index again changes nothing
    let reply = p.process_command(
        &create_indexes("users", vec![sub(vec![("key", sub(vec![("x", Bson::Int32(1))])), ("name", text("by_email"))])]),
        1000,
    );
    assert_eq!(
        reply,
        doc(vec![("numIndexesBefore", Bson::Int32(3)), ("numIndexesAfter", Bson::Int32(3)), ("ok", one())])
    );

    let reply = p.process_command(&doc(vec![("listIndexes", text("users")), ("$db", text("db"))]), 1000);
    let cursor = reply.get_document("cursor").unwrap();
    assert_eq!(cursor.get("id"), Some(&Bson::Int64(0)));
    assert_eq!(cursor.get_str("ns"), Ok("db.users"));
    assert_eq!(
        cursor.get_array("firstBatch").unwrap(),
        &vec![
            sub(vec![("v", Bson::Int32(2)), ("key", sub(vec![("_id", Bson::Int32(1))])), ("name", text("_id_"))]),
            sub(vec![
                ("v", Bson::Int32(2)),
                ("key", sub(vec![("email", Bson::Int32(1))])),
                ("name", text("by_email")),
                ("unique", Bson::Boolean(true)),
            ]),
            sub(vec![
                ("v", Bson::Int32(2)),
                ("key", sub(vec![("seen", Bson::Int32(-1))])),
                ("name", text("idx_seen_-1")),
                ("sparse", Bson::Boolean(true)),
                ("expireAfterSeconds", Bson::Int32(60)),
            ]),
        ]
    );

    let drop = |name: &str| doc(vec![("dropIndexes", text("users")), ("index", text(name)), ("$db", text("db"))]);
    let reply = p.process_command(&drop("missing"), 1000);
    assert_eq!(reply.get("ok"), Some(&zero()));
    assert_eq!(reply.get_i32("code"), Ok(27));
    assert_eq!(reply.get_str("codeName"), Ok("IndexNotFound"));
    let reply = p.process_command(&drop("_id_"), 1000);
    assert_eq!(reply.get_i32("code"), Ok(72));
    let reply = p.process_command(&drop("by_email"), 1000);
    assert_eq!(reply, doc(vec![("ok", one())]));
    assert_eq!(p.indexes.count("db", "users"), 1);
    let reply = p.process_command(&drop("*"), 1000);
    assert_eq!(reply, doc(vec![("ok", one())]));
    assert_eq!(p.indexes.count("db", "users"), 0);
}

#[test]
fn index_requests_that_cannot_be_served() {
    let mut p = processor();
    let reply = p.process_command(&doc(vec![("createIndexes", text("c"))]), 0);
    assert_eq!(reply.get_i32("code"), Ok(9));
    let reply = p.process_command(&create_indexes("c", vec![Bson::Int32(1)]), 0);
    assert_eq!(reply.get_i32("code"), Ok(9));
    let reply = p.process_command(&create_indexes("c", vec![sub(vec![("name", text("n"))])]), 0);
    assert_eq!(reply.get_i32("code"), Ok(9));
    let reply = p.process_command(
        &create_indexes(
            "c",
            vec![
                sub(vec![("key", sub(vec![("a", Bson::Int32(1))]))]),
                sub(vec![("key", sub(vec![("b", Bson::Int32(0))]))]),
                sub(vec![("key", sub(vec![("c", Bson::Int32(1))]))]),
            ],
        ),
        0,
    );
    assert_eq!(reply.get("ok"), Some(&zero()));
    assert_eq!(reply.get_i32("code"), Ok(67));
    assert_eq!(reply.get_str("codeName"), Ok("CannotCreateIndex"));
    assert_eq!(reply.get_str("errmsg"), Ok("invalid index direction"));
    // what was made before the request that failed stays
    assert_eq!(p.indexes.count("db", "c"), 1);
    let reply = p.process_command(&doc(vec![("dropIndexes", text("c"))]), 0);
    assert_eq!(reply.get_i32("code"), Ok(9));
    let reply = p.process_command(&doc(vec![("listIndexes", Bson::Int32(1))]), 0);
    assert_eq!(reply.get_i32("code"), Ok(9));
}

#[test]
fn dropping_a_collection_drops_its_indexes() {
    let mut p = processor();
    p.process_command(&create_indexes("a", vec![sub(vec![("key", sub(vec![("x", Bson::Int32(1))]))])]), 0);
    p.process_command(&create_indexes("b", vec![sub(vec![("key", sub(vec![("x", Bson::Int32(1))]))])]), 0);
    assert_eq!(p.indexes.indexes.len(), 2);
    p.process_command(&doc(vec![("drop", text("a")), ("$db", text("db"))]), 0);
    assert_eq!(p.indexes.count("db", "a"), 0);
    assert_eq!(p.indexes.count("db", "b"), 1);
}

#[test]
fn unit_tests_test_index_manager() {
    let index_manager = IndexManager::new();
    assert!(!std::ptr::eq(&index_manager, std::ptr::null()));
}

#[test]
fn integration_tests_test_index_manager() {
    let index_manager = IndexManager::new();
    assert!(!std::ptr::eq(&index_manager, std::ptr::null()));
}
