use fauxdb::bson::{Bson, Document};
use fauxdb::codec::{decode, encode};
use fauxdb::command_processor::CommandProcessor;
use fauxdb::store::ObjectIdGenerator;
use fauxdb::wire_protocol::{MessageHeader, OpCode, WireError, WireProtocolHandler};

const NOW: u64 = 1_700_000_000_000;

fn doc(entries: Vec<(&str, Bson)>) -> Document {
    let mut d = Document::new();
    for (k, v) in entries {
        d.push(k.to_string(), v);
    }
    d
}

fn text(s: &str) -> Bson {
    Bson::String(s.to_string())
}

fn one() -> Bson {
    Bson::Double(f64::to_bits(1.0))
}

fn zero() -> Bson {
    Bson::Double(f64::to_bits(0.0))
}

fn processor() -> CommandProcessor {
    CommandProcessor::new("test", ObjectIdGenerator::new(0x6543_2100, [1, 2, 3, 4, 5], 0), 7)
}

fn op_msg(request_id: u32, command: &Document) -> Vec<u8> {
    let payload = encode(command).unwrap();
    let mut out = Vec::new();
    out.extend_from_slice(&((21 + payload.len()) as u32).to_le_bytes());
    out.extend_from_slice(&request_id.to_le_bytes());
    out.extend_from_slice(&0u32.to_le_bytes());
    out.extend_from_slice(&2013u32.to_le_bytes());
    out.extend_from_slice(&0u32.to_le_bytes());
    out.push(0);
    out.extend_from_slice(&payload);
    out
}

fn op_query(request_id: u32, collection: &str, query: &Document) -> Vec<u8> {
    let q = encode(query).unwrap();
    let len = 16 + 4 + collection.len() + 1 + 8 + q.len();
    let mut out = Vec::new();
    out.extend_from_slice(&(len as u32).to_le_bytes());
    out.extend_from_slice(&request_id.to_le_bytes());
    out.extend_from_slice(&0u32.to_le_bytes());
    out.extend_from_slice(&2004u32.to_le_bytes());
    out.extend_from_slice(&0u32.to_le_bytes());
    out.extend_from_slice(collection.as_bytes());
    out.push(0);
    out.extend_from_slice(&0i32.to_le_bytes());
    out.extend_from_slice(&(-1i32).to_le_bytes());
    out.extend_from_slice(&q);
    out
}

/// Sends a command as OP_MSG and returns the header and body of the reply.
fn send(p: &mut CommandProcessor, request_id: u32, command: &Document) -> (MessageHeader, Document) {
    let bytes = p.process_message(&op_msg(request_id, command), 1000 + request_id, NOW).unwrap();
    let header = MessageHeader::parse(&bytes).unwrap();
    assert_eq!(header.message_length as usize, bytes.len());
    assert_eq!(header.op_code, OpCode::Msg);
    let body = WireProtocolHandler::parse_message(&bytes).unwrap().get_command_document();
    (header, body)
}

fn run(p: &mut CommandProcessor, command: Document) -> Document {
    send(p, 1, &command).1
}

fn user(id: i32, name: &str) -> Document {
    doc(vec![("_id", Bson::Int32(id)), ("name", text(name))])
}

fn seeded() -> CommandProcessor {
    let mut p = processor();
    let reply = run(
        &mut p,
        doc(vec![
            ("insert", text("users")),
            (
                "documents",
                Bson::Array(vec![Bson::Document(user(1, "A")), Bson::Document(user(2, "B"))]),
            ),
            ("$db", text("db")),
        ]),
    );
    assert_eq!(reply, doc(vec![("n", Bson::Int32(2)), ("ok", one())]));
    p
}

fn cursor_of(reply: &Document) -> &Document {
    assert_eq!(reply.get("ok"), Some(&one()), "reply {:?}", reply);
    reply.get_document("cursor").unwrap()
}

fn first_batch(reply: &Document) -> Vec<Document> {
    cursor_of(reply)
        .get_array("firstBatch")
        .unwrap()
        .iter()
        .map(|b| b.as_document().unwrap().clone_document())
        .collect()
}

fn next_batch(reply: &Document) -> Vec<Document> {
    cursor_of(reply)
        .get_array("nextBatch")
        .unwrap()
        .iter()
        .map(|b| b.as_document().unwrap().clone_document())
        .collect()
}

fn find(collection: &str, filter: Document) -> Document {
    doc(vec![
        ("find", text(collection)),
        ("filter", Bson::Document(filter)),
        ("$db", text("db")),
    ])
}

#[test]
fn ping_over_op_msg() {
    let mut p = processor();
    let (header, body) = send(&mut p, 4711, &doc(vec![("ping", Bson::Int32(1))]));
    assert_eq!(header.response_to, 4711);
    assert_eq!(header.request_id, 1000 + 4711);
    assert_eq!(body, doc(vec![("ok", one())]));
}

#[test]
fn is_master_over_op_query() {
    let mut p = processor();
    let frame = op_query(55, "admin.$cmd", &doc(vec![("isMaster", Bson::Int32(1))]));
    let bytes = p.process_message(&frame, 900, NOW).unwrap();
    let header = MessageHeader::parse(&bytes).unwrap();
    assert_eq!(header.op_code, OpCode::Reply);
    assert_eq!(header.response_to, 55);
    assert_eq!(header.request_id, 900);
    assert_eq!(header.message_length as usize, bytes.len());
    // response flags, cursor id, starting from
    assert_eq!(&bytes[16..32], &[0u8; 16]);
    // number returned
    assert_eq!(&bytes[32..36], &1u32.to_le_bytes());
    let (body, used) = decode(&bytes[36..]).unwrap();
    assert_eq!(used, bytes.len() - 36);
    assert_eq!(body.get("ok"), Some(&one()));
    assert_eq!(body.get_bool("isWritablePrimary"), Ok(true));
    assert_eq!(body.get_bool("ismaster"), Ok(true));
    assert_eq!(body.get_i32("maxWireVersion"), Ok(17));
    assert_eq!(body.get_i32("minWireVersion"), Ok(0));
    assert_eq!(body.get_i32("maxBsonObjectSize"), Ok(16777216));
    assert_eq!(body.get_i32("maxMessageSizeBytes"), Ok(48000000));
    assert_eq!(body.get_i32("connectionId"), Ok(7));
    assert_eq!(body.get("localTime"), Some(&Bson::DateTime(NOW as i64)));
}

#[test]
fn hello_over_op_msg() {
    let mut p = processor();
    let body = run(&mut p, doc(vec![("hello", Bson::Int32(1)), ("$db", text("admin"))]));
    assert_eq!(body.get("ok"), Some(&one()));
    assert_eq!(body.get_bool("isWritablePrimary"), Ok(true));
    assert_eq!(body.get_i32("maxWireVersion"), Ok(17));
}

#[test]
fn insert_then_find() {
    let mut p = seeded();
    let mut command = find("users", Document::new());
    command.push("limit".to_string(), Bson::Int32(10));
    let reply = run(&mut p, command);
    assert_eq!(first_batch(&reply), vec![user(1, "A"), user(2, "B")]);
    assert_eq!(cursor_of(&reply).get("id"), Some(&Bson::Int64(0)));
    assert_eq!(cursor_of(&reply).get_str("ns"), Ok("db.users"));
    assert_eq!(p.cursors.len(), 0);
}

#[test]
fn find_with_a_filter() {
    let mut p = seeded();
    let reply = run(&mut p, find("users", doc(vec![("name", text("B"))])));
    assert_eq!(first_batch(&reply), vec![user(2, "B")]);
    assert_eq!(cursor_of(&reply).get("id"), Some(&Bson::Int64(0)));
}

#[test]
fn update_with_set() {
    let mut p = seeded();
    let spec = doc(vec![
        ("q", Bson::Document(doc(vec![("_id", Bson::Int32(1))]))),
        (
            "u",
            Bson::Document(doc(vec![("$set", Bson::Document(doc(vec![("name", text("A2"))])))])),
        ),
    ]);
    let reply = run(
        &mut p,
        doc(vec![
            ("update", text("users")),
            ("updates", Bson::Array(vec![Bson::Document(spec)])),
            ("$db", text("db")),
        ]),
    );
    assert_eq!(
        reply,
        doc(vec![("n", Bson::Int32(1)), ("nModified", Bson::Int32(1)), ("ok", one())])
    );
    let reply = run(&mut p, find("users", doc(vec![("_id", Bson::Int32(1))])));
    assert_eq!(first_batch(&reply), vec![user(1, "A2")]);
}

#[test]
fn count_all() {
    let mut p = seeded();
    let reply = run(
        &mut p,
        doc(vec![
            ("count", text("users")),
            ("query", Bson::Document(Document::new())),
            ("$db", text("db")),
        ]),
    );
    assert_eq!(reply.get("ok"), Some(&one()));
    assert_eq!(reply.get("n"), Some(&Bson::Int32(2)));
}

#[test]
fn aggregate_match_then_count() {
    let mut p = seeded();
    let pipeline = vec![
        Bson::Document(doc(vec![("$match", Bson::Document(doc(vec![("name", text("A"))])))])),
        Bson::Document(doc(vec![("$count", text("total"))])),
    ];
    let reply = run(
        &mut p,
        doc(vec![
            ("aggregate", text("users")),
            ("pipeline", Bson::Array(pipeline)),
            ("cursor", Bson::Document(Document::new())),
            ("$db", text("db")),
        ]),
    );
    let batch = first_batch(&reply);
    assert_eq!(batch.len(), 1);
    assert_eq!(batch[0].len(), 1);
    let total = batch[0].get("total").unwrap();
    assert!(total == &Bson::Int32(1) || total == &Bson::Int64(1), "total {:?}", total);
    assert_eq!(cursor_of(&reply).get("id"), Some(&Bson::Int64(0)));
    assert_eq!(cursor_of(&reply).get_str("ns"), Ok("db.users"));
}

#[test]
fn every_response_names_its_request() {
    let mut p = seeded();
    let commands = vec![
        doc(vec![("ping", Bson::Int32(1))]),
        doc(vec![("noSuchCommand", Bson::Int32(1))]),
        find("users", Document::new()),
        find("users", doc(vec![("name", doc_value(vec![("$bogus", Bson::Int32(1))]))])),
    ];
    let mut id = 10;
    for c in &commands {
        let (header, _) = send(&mut p, id, c);
        assert_eq!(header.response_to, id);
        id += 17;
    }
}

fn doc_value(entries: Vec<(&str, Bson)>) -> Bson {
    Bson::Document(doc(entries))
}

#[test]
fn cursor_is_kept_while_documents_remain_and_gone_after() {
    let mut p = processor();
    let docs: Vec<Bson> = (0..5).map(|i| Bson::Document(user(i, "x"))).collect();
    run(
        &mut p,
        doc(vec![("insert", text("c")), ("documents", Bson::Array(docs)), ("$db", text("db"))]),
    );
    let mut command = find("c", Document::new());
    command.push("batchSize".to_string(), Bson::Int32(2));
    let reply = run(&mut p, command);
    assert_eq!(first_batch(&reply), vec![user(0, "x"), user(1, "x")]);
    let id = cursor_of(&reply).get_i64("id").unwrap();
    assert_ne!(id, 0);
    assert_eq!(p.cursors.len(), 1);

    let more = |id: i64| {
        doc(vec![
            ("getMore", Bson::Int64(id)),
            ("collection", text("c")),
            ("batchSize", Bson::Int32(2)),
            ("$db", text("db")),
        ])
    };
    let reply = run(&mut p, more(id));
    assert_eq!(next_batch(&reply), vec![user(2, "x"), user(3, "x")]);
    assert_eq!(cursor_of(&reply).get_i64("id"), Ok(id));
    assert_eq!(cursor_of(&reply).get_str("ns"), Ok("db.c"));

    let reply = run(&mut p, more(id));
    assert_eq!(next_batch(&reply), vec![user(4, "x")]);
    assert_eq!(cursor_of(&reply).get_i64("id"), Ok(0));
    assert_eq!(p.cursors.len(), 0);

    let reply = run(&mut p, more(id));
    assert_eq!(reply.get("ok"), Some(&zero()));
    assert_eq!(reply.get_i32("code"), Ok(43));
    assert_eq!(reply.get_str("codeName"), Ok("CursorNotFound"));
    assert!(reply.get_str("errmsg").is_ok());
}

#[test]
fn kill_cursors_reports_each_id() {
    let mut p = processor();
    let docs: Vec<Bson> = (0..3).map(|i| Bson::Document(user(i, "x"))).collect();
    run(
        &mut p,
        doc(vec![("insert", text("c")), ("documents", Bson::Array(docs)), ("$db", text("db"))]),
    );
    let mut command = find("c", Document::new());
    command.push("batchSize".to_string(), Bson::Int32(1));
    let reply = run(&mut p, command);
    let id = cursor_of(&reply).get_i64("id").unwrap();
    let reply = run(
        &mut p,
        doc(vec![
            ("killCursors", text("c")),
            ("cursors", Bson::Array(vec![Bson::Int64(id), Bson::Int64(id + 1000)])),
            ("$db", text("db")),
        ]),
    );
    assert_eq!(reply.get("ok"), Some(&one()));
    assert_eq!(reply.get_array("cursorsKilled").unwrap(), &vec![Bson::Int64(id)]);
    assert_eq!(reply.get_array("cursorsNotFound").unwrap(), &vec![Bson::Int64(id + 1000)]);
    assert_eq!(p.cursors.len(), 0);
}

#[test]
fn unknown_command_is_an_error() {
    let mut p = processor();
    let reply = run(&mut p, doc(vec![("fooBar", Bson::Int32(1))]));
    assert_eq!(reply.get("ok"), Some(&zero()));
    assert_eq!(reply.get_i32("code"), Ok(59));
    assert_eq!(reply.get_str("codeName"), Ok("CommandNotFound"));
    assert_eq!(reply.get_str("errmsg"), Ok("no such command: fooBar"));
}

#[test]
fn known_but_unserved_command_is_not_implemented() {
    let mut p = processor();
    let reply = run(&mut p, doc(vec![("replSetGetStatus", Bson::Int32(1))]));
    assert_eq!(reply.get("ok"), Some(&zero()));
    assert_eq!(reply.get_i32("code"), Ok(238));
    assert_eq!(reply.get_str("codeName"), Ok("NotImplemented"));
}

#[test]
fn bad_arguments_fail_to_parse() {
    let mut p = seeded();
    let reply = run(
        &mut p,
        doc(vec![("find", Bson::Int32(1)), ("$db", text("db"))]),
    );
    assert_eq!(reply.get("ok"), Some(&zero()));
    assert_eq!(reply.get_i32("code"), Ok(9));
    assert_eq!(reply.get_str("codeName"), Ok("FailedToParse"));
}

#[test]
fn unsupported_operator_is_a_bad_value() {
    let mut p = seeded();
    let reply = run(
        &mut p,
        find("users", doc(vec![("name", doc_value(vec![("$bogus", Bson::Int32(1))]))])),
    );
    assert_eq!(reply.get("ok"), Some(&zero()));
    assert_eq!(reply.get_i32("code"), Ok(2));
    assert_eq!(reply.get_str("codeName"), Ok("BadValue"));
}

#[test]
fn unreadable_frames_give_their_error_and_change_nothing() {
    let mut p = seeded();
    let mut frame = op_msg(1, &doc(vec![("ping", Bson::Int32(1))]));
    let last = frame.len() - 1;
    frame[last] = 1;
    assert!(matches!(p.process_message(&frame, 1, NOW), Err(WireError::Bson(_))));
    assert!(matches!(p.process_message(&frame[..5], 1, NOW), Err(WireError::TooShort)));
    let reply = run(&mut p, find("users", Document::new()));
    assert_eq!(first_batch(&reply).len(), 2);
}

#[test]
fn insert_gives_missing_ids() {
    let mut p = processor();
    let reply = run(
        &mut p,
        doc(vec![
            ("insert", text("c")),
            (
                "documents",
                Bson::Array(vec![doc_value(vec![("a", Bson::Int32(1))]), doc_value(vec![("a", Bson::Int32(2))])]),
            ),
        ]),
    );
    assert_eq!(reply.get("n"), Some(&Bson::Int32(2)));
    // without "$db" the default database is used
    let reply = run(&mut p, doc(vec![("find", text("c"))]));
    assert_eq!(cursor_of(&reply).get_str("ns"), Ok("test.c"));
    let batch = first_batch(&reply);
    assert_eq!(batch.len(), 2);
    let a = batch[0].get("_id").unwrap();
    let b = batch[1].get("_id").unwrap();
    assert!(matches!(a, Bson::ObjectId(_)));
    assert!(matches!(b, Bson::ObjectId(_)));
    assert_ne!(a, b);
    assert_eq!(batch[0].key_at(0), "_id");
    assert_eq!(batch[0].get("a"), Some(&Bson::Int32(1)));
}

#[test]
fn upsert_inserts_once() {
    let mut p = processor();
    let spec = || {
        doc(vec![
            ("q", doc_value(vec![("_id", Bson::Int32(5))])),
            ("u", doc_value(vec![("$set", doc_value(vec![("a", Bson::Int32(1))]))])),
            ("upsert", Bson::Boolean(true)),
        ])
    };
    let command = || {
        doc(vec![
            ("update", text("c")),
            ("updates", Bson::Array(vec![Bson::Document(spec())])),
            ("$db", text("db")),
        ])
    };
    let reply = run(&mut p, command());
    assert_eq!(reply.get("ok"), Some(&one()));
    assert_eq!(reply.get("n"), Some(&Bson::Int32(1)));
    assert_eq!(reply.get("nModified"), Some(&Bson::Int32(0)));
    let upserted = reply.get_array("upserted").unwrap();
    assert_eq!(upserted.len(), 1);
    assert_eq!(upserted[0].as_document().unwrap().get("_id"), Some(&Bson::Int32(5)));
    assert_eq!(upserted[0].as_document().unwrap().get("index"), Some(&Bson::Int32(0)));

    let reply = run(&mut p, command());
    assert_eq!(
        reply,
        doc(vec![("n", Bson::Int32(1)), ("nModified", Bson::Int32(0)), ("ok", one())])
    );
    let reply = run(&mut p, find("c", Document::new()));
    assert_eq!(
        first_batch(&reply),
        vec![doc(vec![("_id", Bson::Int32(5)), ("a", Bson::Int32(1))])]
    );
}

#[test]
fn delete_one_and_many() {
    let mut p = seeded();
    run(
        &mut p,
        doc(vec![
            ("insert", text("users")),
            ("documents", Bson::Array(vec![Bson::Document(user(3, "B"))])),
            ("$db", text("db")),
        ]),
    );
    let delete = |limit: i32| {
        doc(vec![
            ("delete", text("users")),
            (
                "deletes",
                Bson::Array(vec![doc_value(vec![
                    ("q", doc_value(vec![("name", text("B"))])),
                    ("limit", Bson::Int32(limit)),
                ])]),
            ),
            ("$db", text("db")),
        ])
    };
    let reply = run(&mut p, delete(1));
    assert_eq!(reply, doc(vec![("n", Bson::Int32(1)), ("ok", one())]));
    let reply = run(&mut p, find("users", Document::new()));
    assert_eq!(first_batch(&reply), vec![user(1, "A"), user(3, "B")]);
    run(
        &mut p,
        doc(vec![
            ("insert", text("users")),
            ("documents", Bson::Array(vec![Bson::Document(user(4, "B"))])),
            ("$db", text("db")),
        ]),
    );
    let reply = run(&mut p, delete(0));
    assert_eq!(reply, doc(vec![("n", Bson::Int32(2)), ("ok", one())]));
    let reply = run(&mut p, find("users", Document::new()));
    assert_eq!(first_batch(&reply), vec![user(1, "A")]);
}

#[test]
fn collections_are_created_listed_and_dropped() {
    let mut p = processor();
    let reply = run(&mut p, doc(vec![("create", text("a")), ("$db", text("db"))]));
    assert_eq!(reply.get("ok"), Some(&one()));
    run(&mut p, doc(vec![("create", text("b")), ("$db", text("db"))]));
    run(&mut p, doc(vec![("create", text("z")), ("$db", text("other"))]));
    let reply = run(&mut p, doc(vec![("listCollections", Bson::Int32(1)), ("$db", text("db"))]));
    let names: Vec<String> = first_batch(&reply)
        .iter()
        .map(|d| d.get_str("name").unwrap().to_string())
        .collect();
    assert_eq!(names, vec!["a".to_string(), "b".to_string()]);
    let reply = run(&mut p, doc(vec![("listDatabases", Bson::Int32(1))]));
    assert_eq!(reply.get("ok"), Some(&one()));
    let dbs: Vec<String> = reply
        .get_array("databases")
        .unwrap()
        .iter()
        .map(|d| d.as_document().unwrap().get_str("name").unwrap().to_string())
        .collect();
    assert_eq!(dbs, vec!["db".to_string(), "other".to_string()]);
    let reply = run(&mut p, doc(vec![("drop", text("a")), ("$db", text("db"))]));
    assert_eq!(reply.get("ok"), Some(&one()));
    let reply = run(&mut p, doc(vec![("listCollections", Bson::Int32(1)), ("$db", text("db"))]));
    assert_eq!(first_batch(&reply).len(), 1);
    // dropping what is not there changes nothing
    let reply = run(&mut p, doc(vec![("drop", text("a")), ("$db", text("db"))]));
    assert_eq!(reply.get("ok"), Some(&one()));
}

#[test]
fn find_applies_sort_skip_limit_and_projection() {
    let mut p = processor();
    let docs: Vec<Bson> = [3, 1, 2, 5, 4]
        .iter()
        .map(|i| doc_value(vec![("_id", Bson::Int32(*i)), ("v", Bson::Int32(10 * *i))]))
        .collect();
    run(
        &mut p,
        doc(vec![("insert", text("c")), ("documents", Bson::Array(docs)), ("$db", text("db"))]),
    );
    let reply = run(
        &mut p,
        doc(vec![
            ("find", text("c")),
            ("filter", doc_value(vec![])),
            ("sort", doc_value(vec![("_id", Bson::Int32(-1))])),
            ("skip", Bson::Int32(1)),
            ("limit", Bson::Int32(2)),
            ("projection", doc_value(vec![("v", Bson::Int32(1))])),
            ("$db", text("db")),
        ]),
    );
    assert_eq!(
        first_batch(&reply),
        vec![
            doc(vec![("_id", Bson::Int32(4)), ("v", Bson::Int32(40))]),
            doc(vec![("_id", Bson::Int32(3)), ("v", Bson::Int32(30))]),
        ]
    );
}

#[test]
fn write_batches_stop_at_the_first_error_only_where_they_are_ordered() {
    let batch = |ordered: Option<bool>| {
        let mut command = doc(vec![
            ("insert", text("c")),
            (
                "documents",
                Bson::Array(vec![
                    Bson::Document(user(1, "a")),
                    Bson::Int32(5),
                    Bson::Document(user(2, "b")),
                    text("no document"),
                    Bson::Document(user(3, "c")),
                ]),
            ),
            ("$db", text("db")),
        ]);
        if let Some(o) = ordered {
            command.push("ordered".to_string(), Bson::Boolean(o));
        }
        command
    };
    let failed = |index: i32| {
        doc_value(vec![
            ("index", Bson::Int32(index)),
            ("code", Bson::Int32(14)),
            ("errmsg", text("write failed")),
        ])
    };
    for ordered in [None, Some(true)] {
        let mut p = processor();
        let reply = run(&mut p, batch(ordered));
        assert_eq!(
            reply,
            doc(vec![
                ("n", Bson::Int32(1)),
                ("writeErrors", Bson::Array(vec![failed(1)])),
                ("ok", one()),
            ])
        );
        let reply = run(&mut p, find("c", Document::new()));
        assert_eq!(first_batch(&reply), vec![user(1, "a")]);
    }
    let mut p = processor();
    let reply = run(&mut p, batch(Some(false)));
    assert_eq!(
        reply,
        doc(vec![
            ("n", Bson::Int32(3)),
            ("writeErrors", Bson::Array(vec![failed(1), failed(3)])),
            ("ok", one()),
        ])
    );
    let reply = run(&mut p, find("c", Document::new()));
    assert_eq!(first_batch(&reply), vec![user(1, "a"), user(2, "b"), user(3, "c")]);
}

#[test]
fn updates_report_what_failed_and_go_on_where_they_may() {
    let mut p = seeded();
    let update = |q: Document, u: Document| {
        doc_value(vec![("q", Bson::Document(q)), ("u", Bson::Document(u))])
    };
    let set = |name: &str| doc(vec![("$set", doc_value(vec![("name", text(name))]))]);
    let reply = run(
        &mut p,
        doc(vec![
            ("update", text("users")),
            (
                "updates",
                Bson::Array(vec![
                    update(doc(vec![("_id", Bson::Int32(1))]), doc(vec![("$bogus", doc_value(vec![]))])),
                    update(doc(vec![("_id", Bson::Int32(2))]), set("B2")),
                ]),
            ),
            ("ordered", Bson::Boolean(false)),
            ("$db", text("db")),
        ]),
    );
    assert_eq!(reply.get("n"), Some(&Bson::Int32(1)));
    assert_eq!(reply.get("nModified"), Some(&Bson::Int32(1)));
    let errors = reply.get_array("writeErrors").unwrap();
    assert_eq!(errors.len(), 1);
    assert_eq!(errors[0].as_document().unwrap().get("index"), Some(&Bson::Int32(0)));
    let reply = run(&mut p, find("users", Document::new()));
    assert_eq!(first_batch(&reply), vec![user(1, "A"), user(2, "B2")]);
}

#[test]
fn build_info_tells_the_version() {
    let mut p = processor();
    let reply = run(&mut p, doc(vec![("buildInfo", Bson::Int32(1))]));
    assert_eq!(reply.get("ok"), Some(&one()));
    assert_eq!(reply.get_str("version"), Ok("5.0.0"));
    assert_eq!(reply.get_i32("bits"), Ok(64));
    assert_eq!(reply.get_i32("maxBsonObjectSize"), Ok(16777216));
    assert_eq!(
        reply.get_array("versionArray").unwrap(),
        &vec![Bson::Int32(5), Bson::Int32(0), Bson::Int32(0), Bson::Int32(0)]
    );
    assert!(reply.get_str("gitVersion").is_ok());
}

#[test]
fn hello_carries_every_field_that_clients_read() {
    let mut p = processor();
    let reply = run(&mut p, doc(vec![("hello", Bson::Int32(1)), ("helloOk", Bson::Boolean(true))]));
    assert_eq!(reply.get("ok"), Some(&one()));
    assert_eq!(reply.get_bool("helloOk"), Ok(true));
    assert_eq!(reply.get_bool("isWritablePrimary"), Ok(true));
    assert_eq!(reply.get_i32("maxBsonObjectSize"), Ok(16777216));
    assert_eq!(reply.get_i32("maxMessageSizeBytes"), Ok(48000000));
    assert_eq!(reply.get_i32("maxWriteBatchSize"), Ok(100000));
    assert_eq!(reply.get_i32("minWireVersion"), Ok(0));
    assert_eq!(reply.get_i32("maxWireVersion"), Ok(17));
    assert_eq!(reply.get_bool("readOnly"), Ok(false));
    assert_eq!(reply.get("localTime"), Some(&Bson::DateTime(NOW as i64)));
    assert_eq!(reply.get_i32("connectionId"), Ok(7));
}

#[test]
fn count_documents_counts_what_the_query_selects() {
    let mut p = seeded();
    let reply = run(
        &mut p,
        doc(vec![
            ("countDocuments", text("users")),
            ("query", doc_value(vec![("name", text("B"))])),
            ("$db", text("db")),
        ]),
    );
    assert_eq!(reply, doc(vec![("n", Bson::Int32(1)), ("ok", one())]));
    let reply = run(&mut p, doc(vec![("count", text("nothing")), ("$db", text("db"))]));
    assert_eq!(reply, doc(vec![("n", Bson::Int32(0)), ("ok", one())]));
}

#[test]
fn aggregate_with_group_over_the_wire() {
    let mut p = seeded();
    run(
        &mut p,
        doc(vec![
            ("insert", text("users")),
            ("documents", Bson::Array(vec![Bson::Document(user(3, "A"))])),
            ("$db", text("db")),
        ]),
    );
    let reply = run(
        &mut p,
        doc(vec![
            ("aggregate", text("users")),
            (
                "pipeline",
                Bson::Array(vec![
                    doc_value(vec![(
                        "$group",
                        doc_value(vec![
                            ("_id", text("$name")),
                            ("n", doc_value(vec![("$sum", Bson::Int32(1))])),
                            ("ids", doc_value(vec![("$push", text("$_id"))])),
                        ]),
                    )]),
                    doc_value(vec![("$sort", doc_value(vec![("n", Bson::Int32(-1))]))]),
                ]),
            ),
            ("cursor", doc_value(vec![])),
            ("$db", text("db")),
        ]),
    );
    assert_eq!(
        first_batch(&reply),
        vec![
            doc(vec![
                ("_id", text("A")),
                ("n", Bson::Int32(2)),
                ("ids", Bson::Array(vec![Bson::Int32(1), Bson::Int32(3)])),
            ]),
            doc(vec![
                ("_id", text("B")),
                ("n", Bson::Int32(1)),
                ("ids", Bson::Array(vec![Bson::Int32(2)])),
            ]),
        ]
    );
}

#[test]
fn find_arguments_at_their_edges() {
    let mut p = seeded();
    // a batch size of zero hands out nothing and keeps everything
    let mut command = find("users", Document::new());
    command.push("batchSize".to_string(), Bson::Int32(0));
    let reply = run(&mut p, command);
    assert_eq!(first_batch(&reply), vec![]);
    let id = cursor_of(&reply).get_i64("id").unwrap();
    assert_ne!(id, 0);
    let reply = run(
        &mut p,
        doc(vec![("getMore", Bson::Int64(id)), ("collection", text("users")), ("$db", text("db"))]),
    );
    assert_eq!(next_batch(&reply), vec![user(1, "A"), user(2, "B")]);
    assert_eq!(cursor_of(&reply).get_i64("id"), Ok(0));

    // a limit of zero is no limit
    let mut command = find("users", Document::new());
    command.push("limit".to_string(), Bson::Int32(0));
    assert_eq!(first_batch(&run(&mut p, command)).len(), 2);
    let mut command = find("users", Document::new());
    command.push("limit".to_string(), Bson::Int32(1));
    assert_eq!(first_batch(&run(&mut p, command)), vec![user(1, "A")]);
    let mut command = find("users", Document::new());
    command.push("skip".to_string(), Bson::Int64(1));
    assert_eq!(first_batch(&run(&mut p, command)), vec![user(2, "B")]);

    // arguments of the wrong kind are refused
    for (key, value) in [
        ("limit", Bson::Int32(-1)),
        ("skip", Bson::Int32(-1)),
        ("batchSize", text("2")),
        ("filter", Bson::Int32(1)),
        ("sort", text("name")),
        ("projection", Bson::Array(vec![])),
    ] {
        let mut command = doc(vec![("find", text("users")), ("$db", text("db"))]);
        command.push(key.to_string(), value);
        let reply = run(&mut p, command);
        assert_eq!(reply.get("ok"), Some(&zero()), "{}", key);
        assert_eq!(reply.get_i32("code"), Ok(9), "{}", key);
    }
    // a sort that names no direction is a bad value
    let mut command = find("users", Document::new());
    command.push("sort".to_string(), doc_value(vec![("name", Bson::Int32(3))]));
    let reply = run(&mut p, command);
    assert_eq!(reply.get_i32("code"), Ok(2));
    // a collection that is not there is empty
    let reply = run(&mut p, find("nothing", Document::new()));
    assert_eq!(first_batch(&reply), vec![]);
    assert_eq!(cursor_of(&reply).get_str("ns"), Ok("db.nothing"));
}

#[test]
fn get_more_arguments_at_their_edges() {
    let mut p = seeded();
    for command in [
        doc(vec![("getMore", Bson::Int32(5)), ("collection", text("users"))]),
        doc(vec![("getMore", text("5")), ("collection", text("users"))]),
        doc(vec![("getMore", Bson::Int64(5)), ("batchSize", Bson::Int32(-1))]),
    ] {
        let reply = run(&mut p, command);
        assert_eq!(reply.get_i32("code"), Ok(9));
    }
    let reply = run(&mut p, doc(vec![("getMore", Bson::Int64(0)), ("collection", text("users"))]));
    assert_eq!(reply.get_i32("code"), Ok(43));
    let reply = run(&mut p, doc(vec![("getMore", Bson::Int64(-1)), ("collection", text("users"))]));
    assert_eq!(reply.get_i32("code"), Ok(43));
    let reply = run(&mut p, doc(vec![("killCursors", text("users")), ("cursors", Bson::Array(vec![text("x")]))]));
    assert_eq!(reply.get_i32("code"), Ok(9));
    let reply = run(&mut p, doc(vec![("killCursors", text("users"))]));
    assert_eq!(reply.get_i32("code"), Ok(9));
}

#[test]
fn deletes_and_updates_at_their_edges() {
    let mut p = seeded();
    let delete = |spec: Bson| {
        doc(vec![("delete", text("users")), ("deletes", Bson::Array(vec![spec])), ("$db", text("db"))])
    };
    // a delete without a filter, or that is no document, fails as a write
    let reply = run(&mut p, delete(doc_value(vec![("limit", Bson::Int32(1))])));
    assert_eq!(reply.get("n"), Some(&Bson::Int32(0)));
    assert_eq!(reply.get_array("writeErrors").unwrap().len(), 1);
    let reply = run(&mut p, delete(Bson::Int32(1)));
    assert_eq!(reply.get_array("writeErrors").unwrap().len(), 1);
    let reply = run(&mut p, find("users", Document::new()));
    assert_eq!(first_batch(&reply).len(), 2);
    // a filter that cannot be evaluated fails as a write and removes nothing
    let reply = run(
        &mut p,
        delete(doc_value(vec![("q", doc_value(vec![("$nor", Bson::Array(vec![]))])), ("limit", Bson::Int32(0))])),
    );
    assert_eq!(reply.get("n"), Some(&Bson::Int32(0)));
    assert_eq!(reply.get_array("writeErrors").unwrap().len(), 1);
    // multi updates change every match
    let reply = run(
        &mut p,
        doc(vec![
            ("update", text("users")),
            (
                "updates",
                Bson::Array(vec![doc_value(vec![
                    ("q", doc_value(vec![])),
                    ("u", doc_value(vec![("$inc", doc_value(vec![("visits", Bson::Int32(1))]))])),
                    ("multi", Bson::Boolean(true)),
                ])]),
            ),
            ("$db", text("db")),
        ]),
    );
    assert_eq!(reply.get("n"), Some(&Bson::Int32(2)));
    assert_eq!(reply.get("nModified"), Some(&Bson::Int32(2)));
    let reply = run(&mut p, find("users", doc(vec![("visits", Bson::Int32(1))])));
    assert_eq!(first_batch(&reply).len(), 2);
    // commands on write lists that are no lists are refused
    let reply = run(&mut p, doc(vec![("insert", text("users")), ("documents", Bson::Int32(1))]));
    assert_eq!(reply.get_i32("code"), Ok(9));
    let reply = run(&mut p, doc(vec![("update", text("users"))]));
    assert_eq!(reply.get_i32("code"), Ok(9));
    let reply = run(
        &mut p,
        doc(vec![("delete", text("users")), ("deletes", Bson::Array(vec![])), ("ordered", Bson::Int32(1))]),
    );
    assert_eq!(reply.get_i32("code"), Ok(9));
}

#[test]
fn aggregate_arguments_at_their_edges() {
    let mut p = seeded();
    let reply = run(&mut p, doc(vec![("aggregate", text("users")), ("pipeline", Bson::Array(vec![]))]));
    // without "$db" the default database is read, which holds nothing
    assert_eq!(first_batch(&reply), vec![]);
    assert_eq!(cursor_of(&reply).get_str("ns"), Ok("test.users"));
    let reply = run(
        &mut p,
        doc(vec![("aggregate", text("users")), ("pipeline", Bson::Array(vec![])), ("$db", text("db"))]),
    );
    assert_eq!(first_batch(&reply).len(), 2);
    let reply = run(
        &mut p,
        doc(vec![
            ("aggregate", text("users")),
            ("pipeline", Bson::Array(vec![])),
            ("cursor", doc_value(vec![("batchSize", Bson::Int32(1))])),
            ("$db", text("db")),
        ]),
    );
    assert_eq!(first_batch(&reply).len(), 1);
    assert_ne!(cursor_of(&reply).get_i64("id"), Ok(0));
    for command in [
        doc(vec![("aggregate", text("users"))]),
        doc(vec![("aggregate", text("users")), ("pipeline", Bson::Array(vec![Bson::Int32(1)]))]),
        doc(vec![("aggregate", Bson::Int32(1)), ("pipeline", Bson::Array(vec![]))]),
        doc(vec![("aggregate", text("users")), ("pipeline", Bson::Array(vec![])), ("cursor", Bson::Int32(1))]),
    ] {
        let reply = run(&mut p, command);
        assert_eq!(reply.get_i32("code"), Ok(9));
    }
    let reply = run(
        &mut p,
        doc(vec![
            ("aggregate", text("users")),
            ("pipeline", Bson::Array(vec![doc_value(vec![("$lookup", doc_value(vec![]))])])),
            ("$db", text("db")),
        ]),
    );
    assert_eq!(reply.get("ok"), Some(&zero()));
    assert_eq!(reply.get_i32("code"), Ok(2));
    assert_eq!(reply.get_str("errmsg"), Ok("stage not implemented"));
}
