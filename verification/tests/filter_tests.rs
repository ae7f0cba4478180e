use fauxdb::aggregation::{match_documents, AggregationEngine};
use fauxdb::numeric::Comparison;
use fauxdb::bson::{Bson, Document};
use fauxdb::filter::{document_matches, FilterError};

fn doc(entries: Vec<(&str, Bson)>) -> Document {
    let mut d = Document::new();
    for (k, v) in entries {
        d.push(k.to_string(), v);
    }
    d
}

fn sub(entries: Vec<(&str, Bson)>) -> Bson {
    Bson::Document(doc(entries))
}

fn text(s: &str) -> Bson {
    Bson::String(s.to_string())
}

fn double(x: f64) -> Bson {
    Bson::Double(x.to_bits())
}

fn subject() -> Document {
    doc(vec![
        ("name", text("Alice")),
        ("age", Bson::Int32(25)),
        ("score", double(7.5)),
        ("big", Bson::Int64(1 << 40)),
        ("active", Bson::Boolean(true)),
        ("none", Bson::Null),
        ("tags", Bson::Array(vec![text("a"), text("b")])),
    ])
}

fn check(filter: Document, expected: Result<bool, FilterError>) {
    assert_eq!(document_matches(&filter, &subject()), expected, "filter {:?}", filter);
}

fn op(field: &str, name: &str, arg: Bson) -> Document {
    doc(vec![(field, sub(vec![(name, arg)]))])
}

#[test]
fn empty_filter_matches() {
    check(Document::new(), Ok(true));
    assert_eq!(document_matches(&Document::new(), &Document::new()), Ok(true));
}

#[test]
fn plain_equality() {
    check(doc(vec![("name", text("Alice"))]), Ok(true));
    check(doc(vec![("name", text("alice"))]), Ok(false));
    check(doc(vec![("age", Bson::Int32(25))]), Ok(true));
    check(doc(vec![("age", Bson::Int64(25))]), Ok(true));
    check(doc(vec![("age", double(25.0))]), Ok(true));
    check(doc(vec![("age", text("25"))]), Ok(false));
    check(doc(vec![("missing", Bson::Int32(1))]), Ok(false));
    check(doc(vec![("missing", Bson::Null)]), Ok(false));
    check(doc(vec![("none", Bson::Null)]), Ok(true));
    check(doc(vec![("name", text("Alice")), ("age", Bson::Int32(25))]), Ok(true));
    check(doc(vec![("name", text("Alice")), ("age", Bson::Int32(26))]), Ok(false));
    check(doc(vec![("tags", Bson::Array(vec![text("a"), text("b")]))]), Ok(true));
    check(doc(vec![("tags", Bson::Array(vec![text("a")]))]), Ok(false));
}

#[test]
fn eq_and_ne() {
    check(op("age", "$eq", Bson::Int32(25)), Ok(true));
    check(op("age", "$eq", Bson::Int32(26)), Ok(false));
    check(op("missing", "$eq", Bson::Int32(26)), Ok(false));
    check(op("age", "$ne", Bson::Int32(25)), Ok(false));
    check(op("age", "$ne", Bson::Int32(26)), Ok(true));
    check(op("missing", "$ne", Bson::Int32(26)), Ok(true));
    check(op("score", "$eq", double(7.5)), Ok(true));
    check(op("score", "$ne", double(f64::NAN)), Ok(true));
}

#[test]
fn ordering_operators() {
    check(op("age", "$gt", Bson::Int32(24)), Ok(true));
    check(op("age", "$gt", Bson::Int32(25)), Ok(false));
    check(op("age", "$gte", Bson::Int32(25)), Ok(true));
    check(op("age", "$gte", Bson::Int32(26)), Ok(false));
    check(op("age", "$lt", Bson::Int32(26)), Ok(true));
    check(op("age", "$lt", Bson::Int32(25)), Ok(false));
    check(op("age", "$lte", Bson::Int32(25)), Ok(true));
    check(op("age", "$lte", Bson::Int32(24)), Ok(false));
    check(op("age", "$gt", double(24.5)), Ok(true));
    check(op("score", "$lt", Bson::Int64(8)), Ok(true));
    check(op("big", "$gt", Bson::Int32(i32::MAX)), Ok(true));
    check(op("name", "$gt", text("Alic")), Ok(true));
    check(op("name", "$lt", text("Bob")), Ok(true));
    check(op("name", "$gte", text("Alice")), Ok(true));
    check(op("name", "$gt", text("Alice")), Ok(false));
    // null stands before every other value
    check(op("age", "$gt", Bson::Null), Ok(true));
    check(op("name", "$gte", Bson::Null), Ok(true));
    check(op("age", "$lt", Bson::Null), Ok(false));
    check(op("none", "$lt", Bson::Int32(0)), Ok(true));
    check(op("none", "$lte", Bson::Null), Ok(true));
    check(op("none", "$gt", Bson::Null), Ok(false));
    // other values of different kinds do not compare
    check(op("name", "$gt", Bson::Int32(1)), Ok(false));
    check(op("name", "$lt", Bson::Int32(1)), Ok(false));
    check(op("missing", "$lt", Bson::Int32(1)), Ok(false));
    check(op("missing", "$gte", Bson::Int32(1)), Ok(false));
    check(op("score", "$gte", double(f64::NAN)), Ok(false));
    // several operators on one field all have to hold
    check(
        doc(vec![("age", sub(vec![("$gte", Bson::Int32(20)), ("$lt", Bson::Int32(30))]))]),
        Ok(true),
    );
    check(
        doc(vec![("age", sub(vec![("$gte", Bson::Int32(20)), ("$lt", Bson::Int32(25))]))]),
        Ok(false),
    );
}

#[test]
fn in_and_nin() {
    let list = Bson::Array(vec![Bson::Int32(1), Bson::Int64(25), text("x")]);
    let other = Bson::Array(vec![Bson::Int32(1), text("x")]);
    check(op("age", "$in", list.clone_value()), Ok(true));
    check(op("age", "$in", other.clone_value()), Ok(false));
    check(op("age", "$in", Bson::Array(vec![])), Ok(false));
    check(op("missing", "$in", list.clone_value()), Ok(false));
    check(op("age", "$nin", list), Ok(false));
    check(op("age", "$nin", other.clone_value()), Ok(true));
    check(op("missing", "$nin", other), Ok(true));
    check(op("age", "$in", Bson::Int32(25)), Err(FilterError::BadOperand));
    check(op("age", "$nin", Bson::Int32(25)), Err(FilterError::BadOperand));
}

#[test]
fn exists_operator() {
    check(op("age", "$exists", Bson::Boolean(true)), Ok(true));
    check(op("age", "$exists", Bson::Boolean(false)), Ok(false));
    check(op("missing", "$exists", Bson::Boolean(true)), Ok(false));
    check(op("missing", "$exists", Bson::Boolean(false)), Ok(true));
    check(op("none", "$exists", Bson::Boolean(true)), Ok(true));
    check(op("age", "$exists", Bson::Int32(1)), Err(FilterError::BadOperand));
}

#[test]
fn regex_of_plain_text_with_anchors() {
    check(op("name", "$regex", text("lic")), Ok(true));
    check(op("name", "$regex", text("")), Ok(true));
    check(op("name", "$regex", text("^Al")), Ok(true));
    check(op("name", "$regex", text("^lic")), Ok(false));
    check(op("name", "$regex", text("ce$")), Ok(true));
    check(op("name", "$regex", text("lic$")), Ok(false));
    check(op("name", "$regex", text("^Alice$")), Ok(true));
    check(op("name", "$regex", text("^Alic$")), Ok(false));
    check(op("name", "$regex", text("^$")), Ok(false));
    check(op("name", "$regex", text("Alice and more")), Ok(false));
    check(op("age", "$regex", text("2")), Ok(false));
    check(op("missing", "$regex", text("a")), Ok(false));
    check(op("name", "$regex", text("A.*e")), Ok(true));
    check(op("name", "$regex", text("[A]")), Ok(true));
    check(op("name", "$regex", text("a$b")), Ok(false));
    check(op("name", "$regex", Bson::Int32(1)), Err(FilterError::BadOperand));
}

fn pattern(p: &str, flags: &str) -> Bson {
    Bson::Regex { pattern: p.to_string(), options: flags.to_string() }
}

#[test]
fn regex_beyond_plain_text() {
    check(op("name", "$regex", text("^A.*e$")), Ok(true));
    check(op("name", "$regex", text("^A.*x$")), Ok(false));
    check(op("name", "$regex", text("^(Bob|Alice)$")), Ok(true));
    check(op("name", "$regex", text("^(Bob|Carol)$")), Ok(false));
    check(op("name", "$regex", text("^[A-Z][a-z]+$")), Ok(true));
    check(op("name", "$regex", text("^[a-z]+$")), Ok(false));
    check(op("name", "$regex", text("l.c")), Ok(true));
    check(op("name", "$regex", text("^.{5}$")), Ok(true));
    check(op("name", "$regex", text("^.{6}$")), Ok(false));
    check(op("name", "$regex", text("ic?e")), Ok(true));
    check(op("name", "$regex", text("\\d")), Ok(false));
    check(op("name", "$regex", text("A\\.")), Ok(false));
    check(op("age", "$regex", text(".*")), Ok(false));
    check(op("missing", "$regex", text(".*")), Ok(false));
    check(op("tags", "$regex", text("a")), Ok(false));
}

#[test]
fn regex_that_is_malformed() {
    check(op("name", "$regex", text("A(")), Err(FilterError::UnsupportedRegex));
    check(op("name", "$regex", text("[a")), Err(FilterError::UnsupportedRegex));
    check(op("name", "$regex", text("*a")), Err(FilterError::UnsupportedRegex));
    check(op("age", "$regex", text("A(")), Err(FilterError::UnsupportedRegex));
    check(op("missing", "$regex", text("A(")), Err(FilterError::UnsupportedRegex));
    check(op("name", "$regex", pattern("A(", "")), Err(FilterError::UnsupportedRegex));
    check(op("name", "$regex", pattern("A", "?")), Err(FilterError::UnsupportedRegex));
}

#[test]
fn regex_as_a_value_with_flags() {
    check(op("name", "$regex", pattern("^A.*e$", "")), Ok(true));
    check(op("name", "$regex", pattern("^alice$", "")), Ok(false));
    check(op("name", "$regex", pattern("^alice$", "i")), Ok(true));
    check(op("name", "$regex", pattern("^a l i c e$", "ix")), Ok(true));
    check(op("name", "$regex", pattern("^bob$", "i")), Ok(false));
    assert_eq!(
        fauxdb::filter::operand_pattern(&pattern("^a", "im")),
        Some("(?im)^a".to_string())
    );
    assert_eq!(fauxdb::filter::operand_pattern(&pattern("^a", "")), Some("^a".to_string()));
    assert_eq!(fauxdb::filter::operand_pattern(&text("^a")), Some("^a".to_string()));
    assert_eq!(fauxdb::filter::operand_pattern(&Bson::Int32(1)), None);
}

#[test]
fn regex_verdicts() {
    use_verdict(None, true, Err(FilterError::UnsupportedRegex));
    use_verdict(None, false, Err(FilterError::UnsupportedRegex));
    use_verdict(Some(true), true, Ok(true));
    use_verdict(Some(true), false, Ok(false));
    use_verdict(Some(false), true, Ok(false));
    use_verdict(Some(false), false, Ok(false));
}

fn use_verdict(outcome: Option<bool>, is_text: bool, expected: Result<bool, FilterError>) {
    assert_eq!(fauxdb::filter::regex_verdict(outcome, is_text), expected);
}

#[test]
fn match_stage_with_a_pattern() {
    let input = vec![
        doc(vec![("name", text("A"))]),
        doc(vec![("name", text("B"))]),
        doc(vec![("name", text("xAy"))]),
        doc(vec![("name", Bson::Int32(1))]),
        doc(vec![("other", text("A"))]),
    ];
    let stage = doc(vec![("$match", sub(vec![("name", sub(vec![("$regex", text("A.*"))]))]))]);
    let out = AggregationEngine::new().process_match_stage(&input, &stage).unwrap();
    assert_eq!(out.len(), 2);
    assert!(out[0].equals(&input[0]));
    assert!(out[1].equals(&input[2]));
    let anchored = doc(vec![("$match", sub(vec![("name", sub(vec![("$regex", text("^A.*"))]))]))]);
    let out = AggregationEngine::new().process_match_stage(&input, &anchored).unwrap();
    assert_eq!(out.len(), 1);
    assert!(out[0].equals(&input[0]));
    let broken = doc(vec![("$match", sub(vec![("name", sub(vec![("$regex", text("A("))]))]))]);
    assert!(AggregationEngine::new().process_match_stage(&input, &broken).is_err());
}

#[test]
fn and_or_not() {
    let yes = || sub(vec![("age", Bson::Int32(25))]);
    let no = || sub(vec![("age", Bson::Int32(1))]);
    check(doc(vec![("$and", Bson::Array(vec![yes(), yes()]))]), Ok(true));
    check(doc(vec![("$and", Bson::Array(vec![yes(), no()]))]), Ok(false));
    check(doc(vec![("$and", Bson::Array(vec![]))]), Ok(true));
    check(doc(vec![("$or", Bson::Array(vec![no(), yes()]))]), Ok(true));
    check(doc(vec![("$or", Bson::Array(vec![no(), no()]))]), Ok(false));
    check(doc(vec![("$or", Bson::Array(vec![]))]), Ok(false));
    check(doc(vec![("$not", yes())]), Ok(false));
    check(doc(vec![("$not", no())]), Ok(true));
    check(
        doc(vec![(
            "$or",
            Bson::Array(vec![
                sub(vec![("$and", Bson::Array(vec![yes(), no()]))]),
                sub(vec![("$not", no())]),
            ]),
        )]),
        Ok(true),
    );
    check(doc(vec![("$and", yes())]), Err(FilterError::BadOperand));
    check(doc(vec![("$or", Bson::Int32(1))]), Err(FilterError::BadOperand));
    check(doc(vec![("$not", Bson::Array(vec![]))]), Err(FilterError::BadOperand));
    check(doc(vec![("$and", Bson::Array(vec![Bson::Int32(1)]))]), Err(FilterError::BadOperand));
}

#[test]
fn unknown_operators_are_never_dropped() {
    check(op("age", "$bogus", Bson::Int32(1)), Err(FilterError::UnsupportedOperator));
    check(doc(vec![("$nor", Bson::Array(vec![]))]), Err(FilterError::UnsupportedOperator));
    // also where another part of the filter already decides
    check(
        doc(vec![("age", Bson::Int32(1)), ("name", sub(vec![("$bogus", Bson::Int32(1))]))]),
        Err(FilterError::UnsupportedOperator),
    );
    check(
        doc(vec![("age", sub(vec![("$gt", Bson::Int32(100)), ("$bogus", Bson::Int32(1))]))]),
        Err(FilterError::UnsupportedOperator),
    );
    check(
        doc(vec![(
            "$or",
            Bson::Array(vec![sub(vec![("age", Bson::Int32(25))]), sub(vec![("$x", Bson::Null)])]),
        )]),
        Err(FilterError::UnsupportedOperator),
    );
}

#[test]
fn selection_keeps_exactly_the_matching_documents_in_order() {
    let docs: Vec<Document> = (0..10)
        .map(|i| doc(vec![("_id", Bson::Int32(i)), ("even", Bson::Boolean(i % 2 == 0))]))
        .collect();
    let filter = doc(vec![("even", Bson::Boolean(true)), ("_id", sub(vec![("$gt", Bson::Int32(2))]))]);
    let got = match_documents(&docs, &filter).unwrap();
    let expected: Vec<Document> = docs
        .iter()
        .filter(|d| document_matches(&filter, d) == Ok(true))
        .map(|d| d.clone_document())
        .collect();
    assert_eq!(got, expected);
    let ids: Vec<i32> = got.iter().map(|d| d.get_i32("_id").unwrap()).collect();
    assert_eq!(ids, vec![4, 6, 8]);
    assert!(match_documents(&docs, &op("even", "$what", Bson::Null)).is_err());
}

#[test]
fn engine_answers_as_the_filter_does() {
    let e = AggregationEngine::new();
    let d = subject();
    assert_eq!(e.document_matches_criteria(&d, &doc(vec![("age", Bson::Int32(25))])), Ok(true));
    assert_eq!(e.document_matches_criteria(&d, &doc(vec![("age", Bson::Int32(26))])), Ok(false));
    assert_eq!(
        e.evaluate_field_condition(&d, "age", &sub(vec![("$gt", Bson::Int32(20))])),
        Ok(true)
    );
    assert_eq!(e.evaluate_field_condition(&d, "name", &text("Bob")), Ok(false));
    assert_eq!(
        e.evaluate_field_condition(&d, "age", &sub(vec![("$bogus", Bson::Int32(20))])),
        Err(FilterError::UnsupportedOperator)
    );
    assert_eq!(e.compare_values(&Bson::Int32(1), &Bson::Int64(2)), Some(Comparison::Less));
    assert_eq!(e.compare_values(&text("b"), &text("a")), Some(Comparison::Greater));
    assert_eq!(e.compare_values(&text("b"), &Bson::Int32(1)), None);
}
