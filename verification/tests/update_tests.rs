use fauxdb::bson::{Bson, Document};
use fauxdb::storage::{
    count_documents, delete_documents, find_documents, insert_document, update_documents,
    StorageError,
};
use fauxdb::update::{apply_update, UpdateError};

fn doc(entries: Vec<(&str, Bson)>) -> Document {
    let mut d = Document::new();
    for (k, v) in entries {
        d.push(k.to_string(), v);
    }
    d
}

fn sub(entries: Vec<(&str, Bson)>) -> Bson {
    Bson::Document(doc(entries))
}

fn text(s: &str) -> Bson {
    Bson::String(s.to_string())
}

fn update(op: &str, field: &str, arg: Bson) -> Document {
    doc(vec![(op, sub(vec![(field, arg)]))])
}

fn base() -> Document {
    doc(vec![
        ("_id", Bson::Int32(1)),
        ("name", text("A")),
        ("n", Bson::Int32(5)),
        ("big", Bson::Int64(5)),
        ("x", Bson::Double(f64::to_bits(1.5))),
        ("inner", sub(vec![("a", Bson::Int32(1)), ("b", Bson::Int32(2))])),
        ("list", Bson::Array(vec![Bson::Int32(1), Bson::Int32(2), Bson::Int32(1)])),
    ])
}

#[test]
fn set_replaces_in_place_or_appends() {
    let d = apply_update(&base(), &update("$set", "name", text("B"))).unwrap();
    assert_eq!(d.get("name"), Some(&text("B")));
    assert_eq!(d.key_at(1), "name");
    assert_eq!(d.len(), base().len());
    let d = apply_update(&base(), &update("$set", "fresh", Bson::Null)).unwrap();
    assert_eq!(d.key_at(d.len() - 1), "fresh");
    assert_eq!(d.len(), base().len() + 1);
}

#[test]
fn set_follows_dotted_paths() {
    let d = apply_update(&base(), &update("$set", "inner.a", Bson::Int32(9))).unwrap();
    assert_eq!(
        d.get("inner"),
        Some(&sub(vec![("a", Bson::Int32(9)), ("b", Bson::Int32(2))]))
    );
    let d = apply_update(&base(), &update("$set", "p.q.r", Bson::Int32(9))).unwrap();
    assert_eq!(d.get("p"), Some(&sub(vec![("q", sub(vec![("r", Bson::Int32(9))]))])));
    assert_eq!(
        apply_update(&base(), &update("$set", "name.first", Bson::Int32(9))),
        Err(UpdateError::PathConflict)
    );
}

#[test]
fn set_twice_is_set_once() {
    let u = doc(vec![(
        "$set",
        sub(vec![("name", text("B")), ("inner.c", Bson::Int32(3)), ("fresh", Bson::Int32(0))]),
    )]);
    let once = apply_update(&base(), &u).unwrap();
    let twice = apply_update(&once, &u).unwrap();
    assert_eq!(once, twice);
}

#[test]
fn inc_twice_is_inc_by_the_double() {
    for (field, n, double) in [
        ("n", Bson::Int32(3), Bson::Int32(6)),
        ("n", Bson::Int64(-4), Bson::Int64(-8)),
        ("big", Bson::Int32(7), Bson::Int32(14)),
        ("fresh", Bson::Int32(1), Bson::Int32(2)),
        ("inner.a", Bson::Int64(1 << 40), Bson::Int64(1 << 41)),
    ] {
        let once = apply_update(&base(), &update("$inc", field, n.clone_value())).unwrap();
        let twice = apply_update(&once, &update("$inc", field, n)).unwrap();
        let direct = apply_update(&base(), &update("$inc", field, double)).unwrap();
        assert_eq!(twice, direct, "field {}", field);
    }
}

#[test]
fn inc_keeps_the_width_where_it_can() {
    let d = apply_update(&base(), &update("$inc", "n", Bson::Int32(3))).unwrap();
    assert_eq!(d.get("n"), Some(&Bson::Int32(8)));
    let d = apply_update(&base(), &update("$inc", "n", Bson::Int64(3))).unwrap();
    assert_eq!(d.get("n"), Some(&Bson::Int64(8)));
    let d = apply_update(&base(), &update("$inc", "big", Bson::Int32(-6))).unwrap();
    assert_eq!(d.get("big"), Some(&Bson::Int64(-1)));
    let d = apply_update(&base(), &update("$inc", "n", Bson::Int32(i32::MAX))).unwrap();
    assert_eq!(d.get("n"), Some(&Bson::Int64(i32::MAX as i64 + 5)));
    let d = apply_update(&base(), &update("$inc", "fresh", Bson::Int64(3))).unwrap();
    assert_eq!(d.get("fresh"), Some(&Bson::Int64(3)));
}

#[test]
fn inc_errors() {
    assert_eq!(
        apply_update(&base(), &update("$inc", "name", Bson::Int32(1))),
        Err(UpdateError::NotNumeric)
    );
    assert_eq!(
        apply_update(&base(), &update("$inc", "n", text("1"))),
        Err(UpdateError::BadOperand)
    );
    assert_eq!(
        apply_update(&base(), &update("$inc", "big", Bson::Int64(i64::MAX))),
        Err(UpdateError::Overflow)
    );
    assert_eq!(
        apply_update(&base(), &update("$inc", "x", Bson::Int32(1))),
        Err(UpdateError::DoubleArithmetic)
    );
    assert_eq!(
        apply_update(&base(), &update("$inc", "n", Bson::Double(f64::to_bits(0.5)))),
        Err(UpdateError::DoubleArithmetic)
    );
}

#[test]
fn unset_rename_push_pull() {
    let d = apply_update(&base(), &update("$unset", "name", text(""))).unwrap();
    assert!(!d.contains_key("name"));
    assert_eq!(d.len(), base().len() - 1);
    let d = apply_update(&base(), &update("$unset", "inner.a", text(""))).unwrap();
    assert_eq!(d.get("inner"), Some(&sub(vec![("b", Bson::Int32(2))])));
    let d = apply_update(&base(), &update("$unset", "missing", text(""))).unwrap();
    assert_eq!(d, base());

    let d = apply_update(&base(), &update("$rename", "name", text("title"))).unwrap();
    assert!(!d.contains_key("name"));
    assert_eq!(d.get("title"), Some(&text("A")));
    let d = apply_update(&base(), &update("$rename", "missing", text("title"))).unwrap();
    assert_eq!(d, base());
    assert_eq!(
        apply_update(&base(), &update("$rename", "name", Bson::Int32(1))),
        Err(UpdateError::BadOperand)
    );

    let d = apply_update(&base(), &update("$push", "list", Bson::Int32(7))).unwrap();
    assert_eq!(
        d.get("list"),
        Some(&Bson::Array(vec![Bson::Int32(1), Bson::Int32(2), Bson::Int32(1), Bson::Int32(7)]))
    );
    let d = apply_update(&base(), &update("$push", "fresh", Bson::Int32(7))).unwrap();
    assert_eq!(d.get("fresh"), Some(&Bson::Array(vec![Bson::Int32(7)])));
    assert_eq!(
        apply_update(&base(), &update("$push", "name", Bson::Int32(7))),
        Err(UpdateError::NotAnArray)
    );

    let d = apply_update(&base(), &update("$pull", "list", Bson::Int64(1))).unwrap();
    assert_eq!(d.get("list"), Some(&Bson::Array(vec![Bson::Int32(2)])));
    let d = apply_update(&base(), &update("$pull", "missing", Bson::Int64(1))).unwrap();
    assert_eq!(d, base());
    assert_eq!(
        apply_update(&base(), &update("$pull", "name", Bson::Int32(7))),
        Err(UpdateError::NotAnArray)
    );
}

#[test]
fn replacement_keeps_the_id() {
    let d = apply_update(&base(), &doc(vec![("v", Bson::Int32(1))])).unwrap();
    assert_eq!(d, doc(vec![("_id", Bson::Int32(1)), ("v", Bson::Int32(1))]));
    let d = apply_update(&base(), &doc(vec![("v", Bson::Int32(1)), ("_id", Bson::Int32(9))])).unwrap();
    assert_eq!(d, doc(vec![("_id", Bson::Int32(1)), ("v", Bson::Int32(1))]));
    let d = apply_update(&doc(vec![("a", Bson::Int32(1))]), &doc(vec![("v", Bson::Int32(1))])).unwrap();
    assert_eq!(d, doc(vec![("v", Bson::Int32(1))]));
}

#[test]
fn update_document_errors() {
    assert_eq!(
        apply_update(
            &base(),
            &doc(vec![("$set", sub(vec![("a", Bson::Int32(1))])), ("b", Bson::Int32(1))])
        ),
        Err(UpdateError::MixedUpdate)
    );
    assert_eq!(
        apply_update(&base(), &update("$bogus", "a", Bson::Int32(1))),
        Err(UpdateError::UnsupportedOperator)
    );
    assert_eq!(
        apply_update(&base(), &doc(vec![("$set", Bson::Int32(1))])),
        Err(UpdateError::BadOperand)
    );
    // an operator that is not known fails also where it names no field
    assert_eq!(
        apply_update(&base(), &doc(vec![("$bogus", sub(vec![]))])),
        Err(UpdateError::UnsupportedOperator)
    );
    assert_eq!(
        apply_update(&base(), &doc(vec![("$bogus", Bson::Int32(1))])),
        Err(UpdateError::UnsupportedOperator)
    );
    assert_eq!(apply_update(&base(), &doc(vec![("$set", sub(vec![]))])), Ok(base()));
}

#[test]
fn operators_apply_in_order() {
    let u = doc(vec![
        ("$set", sub(vec![("a", Bson::Int32(1))])),
        ("$inc", sub(vec![("a", Bson::Int32(2))])),
        ("$rename", sub(vec![("a", text("b"))])),
    ]);
    let d = apply_update(&Document::new(), &u).unwrap();
    assert_eq!(d, doc(vec![("b", Bson::Int32(3))]));
}

#[test]
fn upsert_on_an_empty_collection_then_again() {
    let mut docs: Vec<Document> = Vec::new();
    let filter = doc(vec![("_id", text("x"))]);
    let u = update("$set", "a", Bson::Int32(1));
    let r = update_documents(&mut docs, &filter, &u, false, true, [0; 12]).unwrap();
    assert_eq!((r.matched, r.modified), (0, 0));
    assert_eq!(r.upserted_id, Some(text("x")));
    assert_eq!(docs, vec![doc(vec![("_id", text("x")), ("a", Bson::Int32(1))])]);

    let r = update_documents(&mut docs, &filter, &u, false, true, [1; 12]).unwrap();
    assert_eq!((r.matched, r.modified), (1, 0));
    assert_eq!(r.upserted_id, None);
    assert_eq!(docs, vec![doc(vec![("_id", text("x")), ("a", Bson::Int32(1))])]);
}

#[test]
fn upsert_without_an_id_takes_the_fresh_one() {
    let mut docs: Vec<Document> = Vec::new();
    let filter = doc(vec![("k", text("x")), ("n", sub(vec![("$gt", Bson::Int32(1))]))]);
    let u = update("$set", "a", Bson::Int32(1));
    let r = update_documents(&mut docs, &filter, &u, false, true, [7; 12]).unwrap();
    assert_eq!(r.upserted_id, Some(Bson::ObjectId([7; 12])));
    assert_eq!(docs.len(), 1);
    assert_eq!(docs[0].get("_id"), Some(&Bson::ObjectId([7; 12])));
    assert_eq!(docs[0].get("k"), Some(&text("x")));
    assert_eq!(docs[0].get("a"), Some(&Bson::Int32(1)));
    assert!(!docs[0].contains_key("n"));
}

#[test]
fn update_one_or_many() {
    let make = || -> Vec<Document> {
        (0..4)
            .map(|i| doc(vec![("_id", Bson::Int32(i)), ("g", Bson::Int32(i % 2)), ("v", Bson::Int32(0))]))
            .collect()
    };
    let filter = doc(vec![("g", Bson::Int32(1))]);
    let u = update("$set", "v", Bson::Int32(1));
    let mut docs = make();
    let r = update_documents(&mut docs, &filter, &u, false, false, [0; 12]).unwrap();
    assert_eq!((r.matched, r.modified), (1, 1));
    let vs: Vec<i32> = docs.iter().map(|d| d.get_i32("v").unwrap()).collect();
    assert_eq!(vs, vec![0, 1, 0, 0]);
    let mut docs = make();
    let r = update_documents(&mut docs, &filter, &u, true, false, [0; 12]).unwrap();
    assert_eq!((r.matched, r.modified), (2, 2));
    let vs: Vec<i32> = docs.iter().map(|d| d.get_i32("v").unwrap()).collect();
    assert_eq!(vs, vec![0, 1, 0, 1]);
    let r = update_documents(&mut docs, &filter, &u, true, false, [0; 12]).unwrap();
    assert_eq!((r.matched, r.modified), (2, 0));
    // no match and no upsert: nothing happens
    let r = update_documents(&mut docs, &doc(vec![("g", Bson::Int32(9))]), &u, true, false, [0; 12])
        .unwrap();
    assert_eq!((r.matched, r.modified, r.upserted_id), (0, 0, None));
    assert_eq!(docs.len(), 4);
}

#[test]
fn a_failing_update_leaves_the_collection_alone() {
    let mut docs = vec![
        doc(vec![("_id", Bson::Int32(0)), ("v", Bson::Int32(0))]),
        doc(vec![("_id", Bson::Int32(1)), ("v", text("x"))]),
    ];
    let before: Vec<Document> = docs.iter().map(|d| d.clone_document()).collect();
    let r = update_documents(
        &mut docs,
        &Document::new(),
        &update("$inc", "v", Bson::Int32(1)),
        true,
        false,
        [0; 12],
    );
    assert_eq!(r.err(), Some(StorageError::Update(UpdateError::NotNumeric)));
    assert_eq!(docs, before);
    let r = update_documents(
        &mut docs,
        &doc(vec![("v", sub(vec![("$bogus", Bson::Null)]))]),
        &update("$set", "v", Bson::Int32(1)),
        true,
        false,
        [0; 12],
    );
    assert!(matches!(r, Err(StorageError::Filter(_)) | Err(StorageError::Aggregation(_))));
    assert_eq!(docs, before);
}

#[test]
fn insert_find_count_delete() {
    let mut docs: Vec<Document> = Vec::new();
    let id = insert_document(&mut docs, doc(vec![("a", Bson::Int32(1))]), [3; 12]);
    assert_eq!(id, Bson::ObjectId([3; 12]));
    assert_eq!(docs[0], doc(vec![("_id", Bson::ObjectId([3; 12])), ("a", Bson::Int32(1))]));
    let id = insert_document(&mut docs, doc(vec![("a", Bson::Int32(2)), ("_id", Bson::Int32(9))]), [4; 12]);
    assert_eq!(id, Bson::Int32(9));
    assert_eq!(docs[1], doc(vec![("a", Bson::Int32(2)), ("_id", Bson::Int32(9))]));
    insert_document(&mut docs, doc(vec![("a", Bson::Int32(2)), ("_id", Bson::Int32(10))]), [5; 12]);

    assert_eq!(count_documents(&docs, &Document::new()), Ok(3));
    assert_eq!(count_documents(&docs, &doc(vec![("a", Bson::Int32(2))])), Ok(2));
    assert!(count_documents(&docs, &doc(vec![("$a", Bson::Int32(2))])).is_err());

    let found = find_documents(
        &docs,
        &doc(vec![("a", Bson::Int32(2))]),
        Some(&doc(vec![("_id", Bson::Int32(-1))])),
        0,
        Some(1),
        None,
    )
    .unwrap();
    assert_eq!(found, vec![doc(vec![("a", Bson::Int32(2)), ("_id", Bson::Int32(10))])]);
    let found = find_documents(&docs, &Document::new(), None, 2, None, None).unwrap();
    assert_eq!(found.len(), 1);
    let found = find_documents(&docs, &Document::new(), None, 5, None, None).unwrap();
    assert!(found.is_empty());

    assert_eq!(delete_documents(&mut docs, &doc(vec![("a", Bson::Int32(2))]), false), Ok(1));
    assert_eq!(docs.len(), 2);
    assert_eq!(docs[1].get("_id"), Some(&Bson::Int32(10)));
    assert_eq!(delete_documents(&mut docs, &Document::new(), true), Ok(2));
    assert!(docs.is_empty());
    assert_eq!(delete_documents(&mut docs, &Document::new(), true), Ok(0));
}

fn people() -> Vec<Document> {
    vec![
        doc(vec![("_id", Bson::Int32(1)), ("team", text("a")), ("n", Bson::Int32(1))]),
        doc(vec![("_id", Bson::Int32(2)), ("team", text("b")), ("n", Bson::Int32(5))]),
        doc(vec![("_id", Bson::Int32(3)), ("team", text("a"))]),
        doc(vec![("_id", Bson::Int32(4)), ("team", text("a")), ("n", Bson::Int64(7))]),
    ]
}

fn same(a: &[Document], b: &[Document]) -> bool {
    a.len() == b.len() && a.iter().zip(b.iter()).all(|(x, y)| x.equals(y))
}

#[test]
fn set_twice_on_a_collection() {
    let filter = doc(vec![("team", text("a"))]);
    let u = update("$set", "seen", Bson::Boolean(true));
    for multi in [true, false] {
        let mut docs = people();
        let first = update_documents(&mut docs, &filter, &u, multi, false, [0; 12]).unwrap();
        assert_eq!(first.matched, if multi { 3 } else { 1 });
        assert_eq!(first.modified, first.matched);
        let once = fauxdb::bson::clone_documents(&docs);
        assert_eq!(once.len(), 4);
        assert_eq!(once[0].get("seen"), Some(&Bson::Boolean(true)));
        assert_eq!(once[0].get("n"), Some(&Bson::Int32(1)));
        assert_eq!(once[1].get("seen"), None);
        assert_eq!(once[2].get("seen").is_some(), multi);
        assert!(once.iter().all(|d| d.get("$set").is_none()));
        let second = update_documents(&mut docs, &filter, &u, multi, false, [0; 12]).unwrap();
        assert_eq!(second.matched, first.matched);
        assert_eq!(second.modified, 0);
        assert!(same(&docs, &once));
    }
}

#[test]
fn set_twice_where_the_filter_reads_the_field() {
    let filter = doc(vec![("team", text("a"))]);
    let u = update("$set", "team", text("z"));

    let mut docs = people();
    update_documents(&mut docs, &filter, &u, true, false, [0; 12]).unwrap();
    let once = fauxdb::bson::clone_documents(&docs);
    let second = update_documents(&mut docs, &filter, &u, true, false, [0; 12]).unwrap();
    assert_eq!(second.matched, 0);
    assert!(same(&docs, &once));

    let mut docs = people();
    update_documents(&mut docs, &filter, &u, false, false, [0; 12]).unwrap();
    let once = fauxdb::bson::clone_documents(&docs);
    assert_eq!(once[0].get("team"), Some(&text("z")));
    assert_eq!(once[2].get("team"), Some(&text("a")));
    let second = update_documents(&mut docs, &filter, &u, false, false, [0; 12]).unwrap();
    assert_eq!(second.matched, 1);
    assert_eq!(docs[2].get("team"), Some(&text("z")));
    assert!(!same(&docs, &once));
}

#[test]
fn inc_twice_on_a_collection() {
    let filter = doc(vec![("team", text("a"))]);
    for multi in [true, false] {
        let mut twice = people();
        let by_three = update("$inc", "n", Bson::Int32(3));
        update_documents(&mut twice, &filter, &by_three, multi, false, [0; 12]).unwrap();
        update_documents(&mut twice, &filter, &by_three, multi, false, [0; 12]).unwrap();
        let mut once = people();
        let by_six = update("$inc", "n", Bson::Int32(6));
        update_documents(&mut once, &filter, &by_six, multi, false, [0; 12]).unwrap();
        assert!(same(&twice, &once));
        assert_eq!(once[0].get("n"), Some(&Bson::Int32(7)));
        assert_eq!(once[1].get("n"), Some(&Bson::Int32(5)));
        assert_eq!(once[2].get("n"), if multi { Some(&Bson::Int32(6)) } else { None });
        assert_eq!(
            once[3].get("n"),
            if multi { Some(&Bson::Int64(13)) } else { Some(&Bson::Int64(7)) }
        );
    }
}
