use fauxdb::aggregation::{sort_documents, AggregationEngine, AggregationError};
use fauxdb::bson::{Bson, Document};

fn doc(entries: Vec<(&str, Bson)>) -> Document {
    let mut d = Document::new();
    for (k, v) in entries {
        d.push(k.to_string(), v);
    }
    d
}

fn sub(entries: Vec<(&str, Bson)>) -> Bson {
    Bson::Document(doc(entries))
}

fn text(s: &str) -> Bson {
    Bson::String(s.to_string())
}

fn person(name: &str, age: i32, city: &str) -> Document {
    doc(vec![("name", text(name)), ("age", Bson::Int32(age)), ("city", text(city))])
}

fn short(name: &str, age: i32) -> Document {
    doc(vec![("name", text(name)), ("age", Bson::Int32(age))])
}

#[test]
fn test_match_stage() {
    let pipeline = AggregationEngine::new();
    let input_docs = vec![
        person("Alice", 25, "New York"),
        person("Bob", 30, "Boston"),
        person("Charlie", 25, "New York"),
    ];
    let match_stage = doc(vec![("$match", sub(vec![("age", Bson::Int32(25))]))]);
    let stages = vec![match_stage];

    let result = pipeline.process_pipeline_with_input(&input_docs, &stages).unwrap();

    assert_eq!(result.len(), 2);
    assert_eq!(result[0].get("name"), Some(&text("Alice")));
    assert_eq!(result[1].get("name"), Some(&text("Charlie")));
}

#[test]
fn test_limit_stage() {
    let pipeline = AggregationEngine::new();
    let input_docs = vec![short("Alice", 25), short("Bob", 30), short("Charlie", 25)];
    let stages = vec![doc(vec![("$limit", Bson::Int32(2))])];

    let result = pipeline.process_pipeline_with_input(&input_docs, &stages).unwrap();

    assert_eq!(result.len(), 2);
    assert_eq!(result, vec![short("Alice", 25), short("Bob", 30)]);
}

#[test]
fn test_skip_stage() {
    let pipeline = AggregationEngine::new();
    let input_docs = vec![short("Alice", 25), short("Bob", 30), short("Charlie", 25)];
    let stages = vec![doc(vec![("$skip", Bson::Int32(1))])];

    let result = pipeline.process_pipeline_with_input(&input_docs, &stages).unwrap();

    assert_eq!(result.len(), 2);
    assert_eq!(result, vec![short("Bob", 30), short("Charlie", 25)]);
}

#[test]
fn test_project_stage() {
    let pipeline = AggregationEngine::new();
    let input_docs = vec![person("Alice", 25, "New York"), person("Bob", 30, "Boston")];
    let project_stage = doc(vec![(
        "$project",
        sub(vec![("name", Bson::Int32(1)), ("age", Bson::Int32(1))]),
    )]);
    let stages = vec![project_stage];

    let result = pipeline.process_pipeline_with_input(&input_docs, &stages).unwrap();

    assert_eq!(result.len(), 2);
    assert!(!result[0].contains_key("city"));
    assert!(result[0].contains_key("name"));
    assert!(result[0].contains_key("age"));
}

#[test]
fn test_count_stage() {
    let pipeline = AggregationEngine::new();
    let input_docs = vec![short("Alice", 25), short("Bob", 30), short("Charlie", 25)];
    let stages = vec![doc(vec![("$count", text("total"))])];

    let result = pipeline.process_pipeline_with_input(&input_docs, &stages).unwrap();

    assert_eq!(result.len(), 1);
    assert_eq!(result[0].get("total"), Some(&Bson::Int32(3)));
}

#[test]
fn test_complex_pipeline() {
    let pipeline = AggregationEngine::new();
    let input_docs = vec![
        person("Alice", 25, "New York"),
        person("Bob", 30, "Boston"),
        person("Charlie", 25, "New York"),
        person("David", 35, "Boston"),
    ];
    let stages = vec![
        doc(vec![("$match", sub(vec![("age", sub(vec![("$gte", Bson::Int32(25))]))]))]),
        doc(vec![("$project", sub(vec![("name", Bson::Int32(1)), ("city", Bson::Int32(1))]))]),
        doc(vec![("$limit", Bson::Int32(2))]),
    ];

    let result = pipeline.process_pipeline_with_input(&input_docs, &stages).unwrap();

    assert_eq!(result.len(), 2);
    assert!(!result[0].contains_key("age"));
    assert!(result[0].contains_key("name"));
    assert!(result[0].contains_key("city"));
}

#[test]
fn test_aggregation_error_handling() {
    let pipeline = AggregationEngine::new();
    let input_docs = vec![short("Alice", 25), short("Bob", 30)];
    let invalid_stage = doc(vec![("$invalid_stage", sub(vec![("field", text("value"))]))]);
    let stages = vec![invalid_stage];

    let result = pipeline.process_pipeline_with_input(&input_docs, &stages);

    match result {
        Ok(docs) => {
            println!("unknown stage passed through: {:?}", docs);
        }
        Err(e) => {
            println!("unknown stage refused: {:?}", e);
        }
    }
}

#[test]
fn unknown_and_unserved_stages_are_errors() {
    let engine = AggregationEngine::new();
    let input = vec![short("Alice", 25)];
    let run = |stage: Document| engine.process_pipeline_with_input(&input, &vec![stage]);
    assert_eq!(
        run(doc(vec![("$invalid_stage", sub(vec![]))])).err(),
        Some(AggregationError::UnknownStage)
    );
    assert_eq!(run(Document::new()).err(), Some(AggregationError::EmptyStage));
    assert_eq!(
        run(doc(vec![("$facet", sub(vec![]))])).err(),
        Some(AggregationError::NotImplemented)
    );
    assert_eq!(
        run(doc(vec![("$lookup", sub(vec![]))])).err(),
        Some(AggregationError::NotImplemented)
    );
    assert_eq!(
        run(doc(vec![("$limit", text("2"))])).err(),
        Some(AggregationError::InvalidArgument)
    );
    assert_eq!(
        run(doc(vec![("$skip", Bson::Int32(-1))])).err(),
        Some(AggregationError::InvalidArgument)
    );
    assert_eq!(
        run(doc(vec![("$count", Bson::Int32(1))])).err(),
        Some(AggregationError::InvalidArgument)
    );
    assert_eq!(
        run(doc(vec![("$match", Bson::Int32(1))])).err(),
        Some(AggregationError::InvalidArgument)
    );
    assert!(matches!(
        run(doc(vec![("$match", sub(vec![("a", sub(vec![("$bogus", Bson::Null)]))]))])).err(),
        Some(AggregationError::Filter(_))
    ));
    assert_eq!(
        run(doc(vec![("$project", sub(vec![("a", Bson::Int32(1)), ("b", Bson::Int32(0))]))])).err(),
        Some(AggregationError::MixedProjection)
    );
}

#[test]
fn empty_pipeline_is_the_identity() {
    let engine = AggregationEngine::new();
    let input = vec![short("Alice", 25), short("Bob", 30)];
    assert_eq!(engine.process_pipeline_with_input(&input, &vec![]).unwrap(), input);
    assert_eq!(engine.process_pipeline(&input, &vec![]).unwrap(), input);
}

#[test]
fn limit_and_skip_at_the_edges() {
    let engine = AggregationEngine::new();
    let input = vec![short("Alice", 25), short("Bob", 30)];
    let run = |stage: Document| engine.process_pipeline_with_input(&input, &vec![stage]).unwrap();
    assert_eq!(run(doc(vec![("$limit", Bson::Int64(100))])).len(), 2);
    assert_eq!(run(doc(vec![("$skip", Bson::Int64(100))])).len(), 0);
    assert_eq!(run(doc(vec![("$skip", Bson::Int32(0))])).len(), 2);
    assert_eq!(run(doc(vec![("$limit", Bson::Int32(1))])), vec![short("Alice", 25)]);
}

#[test]
fn projection_includes_or_excludes() {
    let engine = AggregationEngine::new();
    let input = vec![doc(vec![
        ("_id", Bson::Int32(1)),
        ("a", Bson::Int32(2)),
        ("b", Bson::Int32(3)),
        ("c", Bson::Int32(4)),
    ])];
    let run = |p: Document| {
        engine
            .process_pipeline_with_input(&input, &vec![doc(vec![("$project", Bson::Document(p))])])
            .unwrap()
    };
    // the id stays unless it is excluded; the order is that of the document
    assert_eq!(
        run(doc(vec![("c", Bson::Int32(1)), ("a", Bson::Boolean(true))])),
        vec![doc(vec![("_id", Bson::Int32(1)), ("a", Bson::Int32(2)), ("c", Bson::Int32(4))])]
    );
    assert_eq!(
        run(doc(vec![("a", Bson::Int32(1)), ("_id", Bson::Int32(0))])),
        vec![doc(vec![("a", Bson::Int32(2))])]
    );
    assert_eq!(
        run(doc(vec![("a", Bson::Int32(0)), ("b", Bson::Boolean(false))])),
        vec![doc(vec![("_id", Bson::Int32(1)), ("c", Bson::Int32(4))])]
    );
}

#[test]
fn sort_is_stable_and_orders_descending_too() {
    let input = vec![
        doc(vec![("k", Bson::Int32(2)), ("t", text("a"))]),
        doc(vec![("k", Bson::Int32(1)), ("t", text("b"))]),
        doc(vec![("k", Bson::Int32(2)), ("t", text("c"))]),
        doc(vec![("k", Bson::Int32(1)), ("t", text("d"))]),
        doc(vec![("t", text("e"))]),
    ];
    let tags = |docs: &Vec<Document>| -> String {
        docs.iter().map(|d| d.get_str("t").unwrap()).collect::<Vec<_>>().join("")
    };
    let up = sort_documents(&input, &doc(vec![("k", Bson::Int32(1))])).unwrap();
    assert_eq!(tags(&up), "ebdac");
    let down = sort_documents(&input, &doc(vec![("k", Bson::Int32(-1))])).unwrap();
    assert_eq!(tags(&down), "acbde");
    let two = sort_documents(&input, &doc(vec![("k", Bson::Int32(1)), ("t", Bson::Int32(-1))])).unwrap();
    assert_eq!(tags(&two), "edbca");
    assert!(sort_documents(&input, &doc(vec![("k", Bson::Int32(2))])).is_err());
    assert!(sort_documents(&input, &doc(vec![("k", text("asc"))])).is_err());
}

#[test]
fn unwind_gives_one_document_per_item() {
    let engine = AggregationEngine::new();
    let input = vec![
        doc(vec![("_id", Bson::Int32(1)), ("tags", Bson::Array(vec![text("a"), text("b")]))]),
        doc(vec![("_id", Bson::Int32(2)), ("tags", Bson::Array(vec![]))]),
        doc(vec![("_id", Bson::Int32(3))]),
        doc(vec![("_id", Bson::Int32(4)), ("tags", text("c"))]),
    ];
    let out = engine
        .process_pipeline_with_input(&input, &vec![doc(vec![("$unwind", text("$tags"))])])
        .unwrap();
    assert_eq!(
        out,
        vec![
            doc(vec![("_id", Bson::Int32(1)), ("tags", text("a"))]),
            doc(vec![("_id", Bson::Int32(1)), ("tags", text("b"))]),
        ]
    );
}

#[test]
fn stages_run_left_to_right() {
    let engine = AggregationEngine::new();
    let input: Vec<Document> = (0..10).map(|i| doc(vec![("n", Bson::Int32(i))])).collect();
    let stages = vec![
        doc(vec![("$sort", sub(vec![("n", Bson::Int32(-1))]))]),
        doc(vec![("$skip", Bson::Int32(2))]),
        doc(vec![("$limit", Bson::Int32(3))]),
    ];
    let out = engine.process_pipeline_with_input(&input, &stages).unwrap();
    let ns: Vec<i32> = out.iter().map(|d| d.get_i32("n").unwrap()).collect();
    assert_eq!(ns, vec![7, 6, 5]);
    let stages = vec![
        doc(vec![("$limit", Bson::Int32(3))]),
        doc(vec![("$sort", sub(vec![("n", Bson::Int32(-1))]))]),
        doc(vec![("$count", text("c"))]),
    ];
    let out = engine.process_pipeline_with_input(&input, &stages).unwrap();
    assert_eq!(out, vec![doc(vec![("c", Bson::Int32(3))])]);
}

fn sale(city: &str, amount: i32, tag: &str) -> Document {
    doc(vec![("city", text(city)), ("amount", Bson::Int32(amount)), ("tag", text(tag))])
}

fn group(spec: Vec<(&str, Bson)>, input: &Vec<Document>) -> Result<Vec<Document>, AggregationError> {
    AggregationEngine::new().process_pipeline_with_input(input, &vec![doc(vec![("$group", sub(spec))])])
}

fn acc(name: &str, expr: Bson) -> Bson {
    sub(vec![(name, expr)])
}

#[test]
fn group_parts_by_key_in_order_of_first_members() {
    let input = vec![
        sale("Rome", 5, "a"),
        sale("Oslo", 7, "b"),
        sale("Rome", 1, "a"),
        sale("Bern", 4, "c"),
        sale("Oslo", 3, "d"),
    ];
    let out = group(
        vec![
            ("_id", text("$city")),
            ("n", acc("$sum", Bson::Int32(1))),
            ("total", acc("$sum", text("$amount"))),
            ("least", acc("$min", text("$amount"))),
            ("most", acc("$max", text("$amount"))),
            ("first", acc("$first", text("$tag"))),
            ("last", acc("$last", text("$tag"))),
            ("tags", acc("$push", text("$tag"))),
            ("kinds", acc("$addToSet", text("$tag"))),
            ("count", acc("$count", sub(vec![]))),
            ("mean", acc("$avg", text("$amount"))),
        ],
        &input,
    )
    .unwrap();
    assert_eq!(
        out,
        vec![
            doc(vec![
                ("_id", text("Rome")),
                ("n", Bson::Int32(2)),
                ("total", Bson::Int32(6)),
                ("least", Bson::Int32(1)),
                ("most", Bson::Int32(5)),
                ("first", text("a")),
                ("last", text("a")),
                ("tags", Bson::Array(vec![text("a"), text("a")])),
                ("kinds", Bson::Array(vec![text("a")])),
                ("count", Bson::Int32(2)),
                ("mean", Bson::Double(f64::to_bits(3.0))),
            ]),
            doc(vec![
                ("_id", text("Oslo")),
                ("n", Bson::Int32(2)),
                ("total", Bson::Int32(10)),
                ("least", Bson::Int32(3)),
                ("most", Bson::Int32(7)),
                ("first", text("b")),
                ("last", text("d")),
                ("tags", Bson::Array(vec![text("b"), text("d")])),
                ("kinds", Bson::Array(vec![text("b"), text("d")])),
                ("count", Bson::Int32(2)),
                ("mean", Bson::Double(f64::to_bits(5.0))),
            ]),
            doc(vec![
                ("_id", text("Bern")),
                ("n", Bson::Int32(1)),
                ("total", Bson::Int32(4)),
                ("least", Bson::Int32(4)),
                ("most", Bson::Int32(4)),
                ("first", text("c")),
                ("last", text("c")),
                ("tags", Bson::Array(vec![text("c")])),
                ("kinds", Bson::Array(vec![text("c")])),
                ("count", Bson::Int32(1)),
                ("mean", Bson::Double(f64::to_bits(4.0))),
            ]),
        ]
    );
}

#[test]
fn group_by_a_constant_gathers_everything() {
    let input = vec![sale("Rome", 5, "a"), sale("Oslo", -7, "b")];
    let out = group(vec![("_id", Bson::Null), ("total", acc("$sum", text("$amount")))], &input).unwrap();
    assert_eq!(out, vec![doc(vec![("_id", Bson::Null), ("total", Bson::Int32(-2))])]);
    assert_eq!(group(vec![("_id", Bson::Null)], &vec![]).unwrap(), vec![]);
}

#[test]
fn group_keys_that_are_equal_numbers_are_one_group() {
    let input = vec![
        doc(vec![("k", Bson::Int32(1))]),
        doc(vec![("k", Bson::Double(f64::to_bits(1.0)))]),
        doc(vec![("k", Bson::Int64(1))]),
        doc(vec![("k", text("1"))]),
        doc(vec![("other", Bson::Int32(1))]),
        doc(vec![("k", Bson::Null)]),
    ];
    let out = group(vec![("_id", text("$k")), ("n", acc("$count", sub(vec![])))], &input).unwrap();
    assert_eq!(
        out,
        vec![
            doc(vec![("_id", Bson::Int32(1)), ("n", Bson::Int32(3))]),
            doc(vec![("_id", text("1")), ("n", Bson::Int32(1))]),
            doc(vec![("_id", Bson::Null), ("n", Bson::Int32(2))]),
        ]
    );
}

#[test]
fn sums_widen_and_pass_over_what_is_no_number() {
    let input = vec![
        doc(vec![("v", Bson::Int32(i32::MAX))]),
        doc(vec![("v", Bson::Int32(1))]),
        doc(vec![("v", text("x"))]),
        doc(vec![("w", Bson::Int32(1))]),
    ];
    let out = group(vec![("_id", Bson::Null), ("s", acc("$sum", text("$v")))], &input).unwrap();
    assert_eq!(out[0].get("s"), Some(&Bson::Int64(i32::MAX as i64 + 1)));
    let wide = vec![doc(vec![("v", Bson::Int64(1))]), doc(vec![("v", Bson::Int32(1))])];
    let out = group(vec![("_id", Bson::Null), ("s", acc("$sum", text("$v")))], &wide).unwrap();
    assert_eq!(out[0].get("s"), Some(&Bson::Int64(2)));
    let none = vec![doc(vec![("v", text("x"))])];
    let out = group(
        vec![
            ("_id", Bson::Null),
            ("s", acc("$sum", text("$v"))),
            ("a", acc("$avg", text("$v"))),
            ("m", acc("$min", text("$missing"))),
        ],
        &none,
    )
    .unwrap();
    assert_eq!(
        out,
        vec![doc(vec![
            ("_id", Bson::Null),
            ("s", Bson::Int32(0)),
            ("a", Bson::Null),
            ("m", Bson::Null),
        ])]
    );
}

#[test]
fn averages_of_whole_numbers() {
    let input = vec![
        doc(vec![("v", Bson::Int64(i64::MIN))]),
        doc(vec![("v", Bson::Int64(i64::MIN))]),
    ];
    let out = group(vec![("_id", Bson::Null), ("a", acc("$avg", text("$v")))], &input).unwrap();
    assert_eq!(out[0].get("a"), Some(&Bson::Double((i64::MIN as f64).to_bits())));
    let input = vec![doc(vec![("v", Bson::Int32(-9))]), doc(vec![("v", Bson::Int32(3))])];
    let out = group(vec![("_id", Bson::Null), ("a", acc("$avg", text("$v")))], &input).unwrap();
    assert_eq!(out[0].get("a"), Some(&Bson::Double(f64::to_bits(-3.0))));
}

#[test]
fn group_errors() {
    let input = vec![
        doc(vec![("v", Bson::Int32(1)), ("d", Bson::Double(f64::to_bits(0.5))), ("big", Bson::Int64(i64::MAX))]),
        doc(vec![("v", Bson::Int32(2)), ("d", Bson::Int32(1)), ("big", Bson::Int64(1))]),
    ];
    let one = |name: &str, expr: Bson| group(vec![("_id", Bson::Null), ("x", acc(name, expr))], &input).err();
    assert_eq!(one("$avg", text("$v")), Some(AggregationError::DoubleArithmetic));
    assert_eq!(one("$sum", text("$d")), Some(AggregationError::DoubleArithmetic));
    assert_eq!(one("$avg", text("$d")), Some(AggregationError::DoubleArithmetic));
    assert_eq!(one("$sum", text("$big")), Some(AggregationError::Overflow));
    assert_eq!(one("$median", text("$v")), Some(AggregationError::InvalidArgument));
    assert_eq!(one("$count", Bson::Int32(1)), Some(AggregationError::InvalidArgument));
    assert_eq!(one("$sum", sub(vec![("$multiply", Bson::Array(vec![]))])), Some(AggregationError::NotImplemented));
    assert_eq!(one("$push", Bson::Array(vec![])), Some(AggregationError::NotImplemented));
    assert_eq!(
        group(vec![("x", acc("$sum", Bson::Int32(1)))], &input).err(),
        Some(AggregationError::InvalidArgument)
    );
    assert_eq!(
        group(vec![("_id", sub(vec![("a", text("$v"))]))], &input).err(),
        Some(AggregationError::NotImplemented)
    );
    assert_eq!(
        group(vec![("_id", Bson::Null), ("x", Bson::Int32(1))], &input).err(),
        Some(AggregationError::InvalidArgument)
    );
    assert_eq!(
        group(
            vec![("_id", Bson::Null), ("x", sub(vec![("$sum", Bson::Int32(1)), ("$max", Bson::Int32(1))]))],
            &input
        )
        .err(),
        Some(AggregationError::InvalidArgument)
    );
    assert_eq!(
        AggregationEngine::new()
            .process_pipeline_with_input(&input, &vec![doc(vec![("$group", Bson::Int32(1))])])
            .err(),
        Some(AggregationError::InvalidArgument)
    );
    // a plan that cannot be carried out fails only where there is a group
    assert_eq!(group(vec![("_id", Bson::Null), ("x", Bson::Int32(1))], &vec![]).unwrap().len(), 0);
}
