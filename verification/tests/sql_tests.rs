use fauxdb::bson::{Bson, Document};
use fauxdb::sql::{push_filter, sanitize_identifier, SqlError, SqlParam, SqlQuery};

fn doc(entries: Vec<(&str, Bson)>) -> Document {
    let mut d = Document::new();
    for (k, v) in entries {
        d.push(k.to_string(), v);
    }
    d
}

fn sub(entries: Vec<(&str, Bson)>) -> Bson {
    Bson::Document(doc(entries))
}

fn text(s: &str) -> Bson {
    Bson::String(s.to_string())
}

fn lower(filter: Document) -> Result<(String, Vec<SqlParam>), SqlError> {
    let mut q = SqlQuery::new("");
    push_filter(&mut q, &filter)?;
    Ok((q.text, q.params))
}

fn t(s: &str) -> SqlParam {
    SqlParam::Text(s.to_string())
}

#[test]
fn identifiers_are_checked() {
    assert_eq!(sanitize_identifier("users"), Ok("users".to_string()));
    assert_eq!(sanitize_identifier("a_b9"), Ok("a_b9".to_string()));
    assert_eq!(sanitize_identifier(""), Err(SqlError::InvalidIdentifier));
    assert_eq!(sanitize_identifier("a;drop"), Err(SqlError::InvalidIdentifier));
    assert_eq!(sanitize_identifier("a\"b"), Err(SqlError::InvalidIdentifier));
    assert_eq!(sanitize_identifier("a b"), Err(SqlError::InvalidIdentifier));
}

#[test]
fn no_literal_reaches_the_text() {
    let (sql, params) = lower(doc(vec![("name", text("x'; DROP TABLE users; --"))])).unwrap();
    assert!(!sql.contains("DROP"));
    assert!(!sql.contains("name"));
    assert_eq!(params, vec![t("name"), t("x'; DROP TABLE users; --")]);
    assert_eq!(sql, "data ->> $1 = $2");
}

#[test]
fn empty_filter_is_true() {
    assert_eq!(lower(Document::new()), Ok(("TRUE".to_string(), vec![])));
}

#[test]
fn unknown_operators_fail() {
    assert_eq!(
        lower(doc(vec![("a", sub(vec![("$bogus", Bson::Int32(1))]))])),
        Err(SqlError::UnsupportedOperator)
    );
    assert_eq!(lower(doc(vec![("$nor", Bson::Array(vec![]))])), Err(SqlError::UnsupportedOperator));
    assert_eq!(
        lower(doc(vec![("a", sub(vec![("$in", Bson::Int32(1))]))])),
        Err(SqlError::BadOperand)
    );
}

#[test]
fn every_filter_shape_has_its_form() {
    let table: Vec<(Document, &str, Vec<SqlParam>)> = vec![
        (doc(vec![("f", text("v"))]), "data ->> $1 = $2", vec![t("f"), t("v")]),
        (doc(vec![("f", Bson::Int32(5))]), "data ->> $1 = $2", vec![t("f"), t("5")]),
        (doc(vec![("f", Bson::Boolean(false))]), "data ->> $1 = $2", vec![t("f"), t("false")]),
        (doc(vec![("f", Bson::Null)]), "data ->> $1 IS NULL", vec![t("f")]),
        (
            doc(vec![("_id", Bson::ObjectId([0xab; 12]))]),
            "data ->> $1 = $2",
            vec![t("_id"), t("abababababababababababab")],
        ),
        (doc(vec![("$and", Bson::Array(vec![]))]), "TRUE", vec![]),
        (doc(vec![("$or", Bson::Array(vec![]))]), "FALSE", vec![]),
        (doc(vec![("f", sub(vec![("$in", Bson::Array(vec![]))]))]), "FALSE", vec![]),
        (
            doc(vec![("f", sub(vec![("$eq", Bson::Int64(-5))]))]),
            "data ->> $1 = $2",
            vec![t("f"), t("-5")],
        ),
        (
            doc(vec![("f", sub(vec![("$ne", text("v"))]))]),
            "data ->> $1 IS DISTINCT FROM $2",
            vec![t("f"), t("v")],
        ),
        (
            doc(vec![("f", sub(vec![("$gt", Bson::Int32(1))]))]),
            "(data ->> $1)::numeric > $2::numeric",
            vec![t("f"), t("1")],
        ),
        (
            doc(vec![("f", sub(vec![("$gte", Bson::Int32(1))]))]),
            "(data ->> $1)::numeric >= $2::numeric",
            vec![t("f"), t("1")],
        ),
        (
            doc(vec![("f", sub(vec![("$lt", Bson::Double(f64::to_bits(1.5)))]))]),
            "(data ->> $1)::numeric < $2::numeric",
            vec![t("f"), SqlParam::Double(f64::to_bits(1.5))],
        ),
        (
            doc(vec![("f", sub(vec![("$lte", text("m"))]))]),
            "data ->> $1 <= $2",
            vec![t("f"), t("m")],
        ),
        (
            doc(vec![("f", sub(vec![("$in", Bson::Array(vec![text("a"), Bson::Int32(2)]))]))]),
            "data ->> $1 IN ($2, $3)",
            vec![t("f"), t("a"), t("2")],
        ),
        (
            doc(vec![("f", sub(vec![("$nin", Bson::Array(vec![text("a")]))]))]),
            "data ->> $1 NOT IN ($2)",
            vec![t("f"), t("a")],
        ),
        (doc(vec![("f", sub(vec![("$exists", Bson::Boolean(true))]))]), "data ? $1", vec![t("f")]),
        (
            doc(vec![("f", sub(vec![("$exists", Bson::Boolean(false))]))]),
            "NOT (data ? $1)",
            vec![t("f")],
        ),
        (
            doc(vec![("f", sub(vec![("$regex", text("^a"))]))]),
            "data ->> $1 ~ $2",
            vec![t("f"), t("^a")],
        ),
        (
            doc(vec![(
                "f",
                sub(vec![(
                    "$regex",
                    Bson::Regex { pattern: "^a.*b$".to_string(), options: String::new() },
                )]),
            )]),
            "data ->> $1 ~ $2",
            vec![t("f"), t("^a.*b$")],
        ),
        (
            doc(vec![(
                "f",
                sub(vec![(
                    "$regex",
                    Bson::Regex { pattern: "^a".to_string(), options: "i".to_string() },
                )]),
            )]),
            "data ->> $1 ~ $2",
            vec![t("f"), t("(?i)^a")],
        ),
        (
            doc(vec![(
                "$and",
                Bson::Array(vec![sub(vec![("a", Bson::Int32(1))]), sub(vec![("b", Bson::Int32(2))])]),
            )]),
            "((data ->> $1 = $2) AND (data ->> $3 = $4))",
            vec![t("a"), t("1"), t("b"), t("2")],
        ),
        (
            doc(vec![(
                "$or",
                Bson::Array(vec![sub(vec![("a", Bson::Int32(1))]), sub(vec![("b", Bson::Int32(2))])]),
            )]),
            "((data ->> $1 = $2) OR (data ->> $3 = $4))",
            vec![t("a"), t("1"), t("b"), t("2")],
        ),
        (
            doc(vec![("$not", sub(vec![("a", Bson::Int32(1))]))]),
            "NOT (data ->> $1 = $2)",
            vec![t("a"), t("1")],
        ),
        (
            doc(vec![("a", Bson::Int32(1)), ("b", sub(vec![("$gt", Bson::Int32(0)), ("$lt", Bson::Int32(9))]))]),
            "data ->> $1 = $2 AND (data ->> $3)::numeric > $4::numeric AND (data ->> $5)::numeric < $6::numeric",
            vec![t("a"), t("1"), t("b"), t("0"), t("b"), t("9")],
        ),
    ];
    for (filter, text, params) in table {
        let got = lower(filter.clone_document());
        assert_eq!(got, Ok((text.to_string(), params)), "filter {:?}", filter);
    }
}

#[test]
fn filters_that_have_no_form() {
    for (filter, error) in [
        (doc(vec![("f", Bson::Array(vec![]))]), SqlError::UnsupportedLiteral),
        (doc(vec![("f", Bson::DateTime(5))]), SqlError::UnsupportedLiteral),
        (doc(vec![("f", sub(vec![("a", Bson::Int32(1))]))]), SqlError::UnsupportedLiteral),
        (doc(vec![("f", sub(vec![]))]), SqlError::UnsupportedLiteral),
        (doc(vec![("f", sub(vec![("$exists", Bson::Int32(1))]))]), SqlError::BadOperand),
        (doc(vec![("f", sub(vec![("$regex", Bson::Int32(1))]))]), SqlError::BadOperand),
        (doc(vec![("f", sub(vec![("$nin", text("a"))]))]), SqlError::BadOperand),
        (doc(vec![("$and", sub(vec![]))]), SqlError::BadOperand),
        (doc(vec![("$or", Bson::Array(vec![Bson::Int32(1)]))]), SqlError::BadOperand),
        (doc(vec![("$not", Bson::Array(vec![]))]), SqlError::BadOperand),
        (doc(vec![("f", sub(vec![("$in", Bson::Array(vec![Bson::Null]))]))]), SqlError::UnsupportedLiteral),
    ] {
        assert_eq!(lower(filter.clone_document()), Err(error), "filter {:?}", filter);
    }
}
