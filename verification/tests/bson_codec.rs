use fauxdb::bson::{AccessError, Bson, Document};
use fauxdb::codec::{decode, encode, BsonError, MAX_DOCUMENT_SIZE};

fn doc(entries: Vec<(&str, Bson)>) -> Document {
    let mut d = Document::new();
    for (k, v) in entries {
        d.push(k.to_string(), v);
    }
    d
}

fn sample() -> Document {
    doc(vec![
        ("name", Bson::String("test".to_string())),
        ("value", Bson::Int32(42)),
        (
            "nested",
            Bson::Document(doc(vec![
                (
                    "array",
                    Bson::Array(vec![Bson::Int32(1), Bson::Int32(2), Bson::Int32(3)]),
                ),
                ("boolean", Bson::Boolean(true)),
            ])),
        ),
    ])
}

#[test]
fn test_bson_serialization() {
    let d = sample();
    let serialized = encode(&d).unwrap();
    assert!(!serialized.is_empty());
    let (deserialized, consumed) = decode(&serialized).unwrap();
    assert_eq!(consumed, serialized.len());
    assert_eq!(deserialized.get_str("name").unwrap(), "test");
    assert_eq!(deserialized.get_i32("value").unwrap(), 42);
}

#[test]
fn test_bson_operations() {
    let d = sample();
    let serialized = encode(&d).unwrap();
    assert!(!serialized.is_empty());
    let (deserialized, _) = decode(&serialized).unwrap();
    assert_eq!(deserialized.get_str("name").unwrap(), "test");
    assert_eq!(deserialized.get_i32("value").unwrap(), 42);
    let nested = deserialized.get_document("nested").unwrap();
    let array = nested.get_array("array").unwrap();
    assert_eq!(array.len(), 3);
    assert_eq!(array[0].as_i32().unwrap(), 1);
}

#[test]
fn round_trip_keeps_every_type_and_the_order() {
    let d = doc(vec![
        ("z", Bson::Double(f64::to_bits(1.5))),
        ("a", Bson::String("héllo \u{0}x".to_string())),
        ("d", Bson::Document(doc(vec![("k", Bson::Null)]))),
        ("arr", Bson::Array(vec![Bson::Int64(-7), Bson::Boolean(false)])),
        ("bin", Bson::Binary { subtype: 0, bytes: vec![1, 2, 3] }),
        ("uuid", Bson::uuid(vec![7; 16])),
        ("oid", Bson::ObjectId([9; 12])),
        ("t", Bson::Boolean(true)),
        ("date", Bson::DateTime(-1)),
        ("n", Bson::Null),
        ("re", Bson::Regex { pattern: "^a".to_string(), options: "i".to_string() }),
        ("i32", Bson::Int32(i32::MIN)),
        ("ts", Bson::Timestamp { time: 5, increment: 6 }),
        ("i64", Bson::Int64(i64::MAX)),
        ("a", Bson::Int32(2)),
    ]);
    let bytes = encode(&d).unwrap();
    let (back, n) = decode(&bytes).unwrap();
    assert_eq!(n, bytes.len());
    assert_eq!(back, d);
    assert!(back.equals(&d));
    assert_eq!(back.key_at(0), "z");
    assert_eq!(back.key_at(14), "a");
    // first match wins among duplicates
    assert_eq!(back.get("a").unwrap(), &Bson::String("héllo \u{0}x".to_string()));
    assert_eq!(encode(&back).unwrap(), bytes);
}

#[test]
fn integer_width_is_not_promoted() {
    let d = doc(vec![("a", Bson::Int32(1)), ("b", Bson::Int64(1))]);
    let (back, _) = decode(&encode(&d).unwrap()).unwrap();
    assert_eq!(back.get("a").unwrap(), &Bson::Int32(1));
    assert_eq!(back.get("b").unwrap(), &Bson::Int64(1));
    assert_ne!(back.get("a").unwrap(), &Bson::Double(f64::to_bits(1.0)));
}

#[test]
fn empty_document_is_five_bytes() {
    let bytes = encode(&Document::new()).unwrap();
    assert_eq!(bytes, vec![5, 0, 0, 0, 0]);
    let (d, n) = decode(&bytes).unwrap();
    assert_eq!(n, 5);
    assert!(d.is_empty());
}

#[test]
fn exact_bytes_of_a_small_document() {
    let d = doc(vec![("a", Bson::Int32(1))]);
    assert_eq!(encode(&d).unwrap(), vec![12, 0, 0, 0, 0x10, b'a', 0, 1, 0, 0, 0, 0]);
}

#[test]
fn encode_agrees_with_the_bson_crate() {
    let mut inner = bson::Document::new();
    inner.insert("array", vec![bson::Bson::Int32(1), bson::Bson::Int32(2), bson::Bson::Int32(3)]);
    inner.insert("boolean", true);
    let mut theirs = bson::Document::new();
    theirs.insert("name", "test");
    theirs.insert("value", 42i32);
    theirs.insert("nested", inner);
    theirs.insert("pi", 3.25f64);
    theirs.insert("big", 1i64 << 40);
    theirs.insert("none", bson::Bson::Null);
    let expected = bson::to_vec(&theirs).unwrap();

    let mut ours = sample();
    ours.push("pi".to_string(), Bson::Double(f64::to_bits(3.25)));
    ours.push("big".to_string(), Bson::Int64(1i64 << 40));
    ours.push("none".to_string(), Bson::Null);
    assert_eq!(encode(&ours).unwrap(), expected);

    let (back, _) = decode(&expected).unwrap();
    assert_eq!(back, ours);
    let parsed: bson::Document = bson::from_slice(&encode(&ours).unwrap()).unwrap();
    assert_eq!(parsed, theirs);
}

#[test]
fn decode_takes_the_declared_length_and_no_more() {
    let mut bytes = encode(&doc(vec![("a", Bson::Int32(1))])).unwrap();
    let len = bytes.len();
    bytes.extend_from_slice(&[0xff, 0xff, 0xff]);
    let (d, n) = decode(&bytes).unwrap();
    assert_eq!(n, len);
    assert_eq!(d.get_i32("a"), Ok(1));
}

#[test]
fn truncated_document_is_refused() {
    assert_eq!(decode(&[]), Err(BsonError::TruncatedDocument));
    assert_eq!(decode(&[5, 0, 0]), Err(BsonError::TruncatedDocument));
    assert_eq!(decode(&[4, 0, 0, 0]), Err(BsonError::TruncatedDocument));
    assert_eq!(decode(&[6, 0, 0, 0, 0]), Err(BsonError::TruncatedDocument));
    // an int32 value with two bytes only
    assert_eq!(
        decode(&[10, 0, 0, 0, 0x10, b'a', 0, 1, 0, 0]),
        Err(BsonError::TruncatedDocument)
    );
}

#[test]
fn bad_terminator_is_refused() {
    assert_eq!(decode(&[5, 0, 0, 0, 1]), Err(BsonError::BadTerminator));
}

#[test]
fn bad_type_tag_is_refused() {
    assert_eq!(
        decode(&[8, 0, 0, 0, 0x7e, b'a', 0, 0]),
        Err(BsonError::BadTypeTag)
    );
    assert_eq!(decode(&[8, 0, 0, 0, 0x00, b'a', 0, 0]), Err(BsonError::BadTypeTag));
}

#[test]
fn bad_strings_are_refused() {
    // a name without terminator inside the body
    assert_eq!(decode(&[7, 0, 0, 0, 0x0a, b'a', 0]), Err(BsonError::BadString));
    // a name that is not UTF-8
    assert_eq!(decode(&[8, 0, 0, 0, 0x0a, 0xff, 0, 0]), Err(BsonError::BadString));
    // a string value that is not UTF-8
    assert_eq!(
        decode(&[14, 0, 0, 0, 0x02, b'a', 0, 2, 0, 0, 0, 0xff, 0, 0]),
        Err(BsonError::BadString)
    );
    // a string value without its terminator
    assert_eq!(
        decode(&[14, 0, 0, 0, 0x02, b'a', 0, 2, 0, 0, 0, b'x', b'y', 0]),
        Err(BsonError::BadString)
    );
    // a string value of length zero
    assert_eq!(
        decode(&[12, 0, 0, 0, 0x02, b'a', 0, 0, 0, 0, 0, 0]),
        Err(BsonError::BadString)
    );
}

#[test]
fn oversize_document_is_refused() {
    let declared = (MAX_DOCUMENT_SIZE as u32) + 1;
    let mut bytes = declared.to_le_bytes().to_vec();
    bytes.push(0);
    assert_eq!(decode(&bytes), Err(BsonError::OversizeDocument));
    assert_eq!(decode(&[0xff, 0xff, 0xff, 0xff, 0]), Err(BsonError::OversizeDocument));

    let big = doc(vec![(
        "blob",
        Bson::Binary { subtype: 0, bytes: vec![0; MAX_DOCUMENT_SIZE] },
    )]);
    assert_eq!(encode(&big), Err(BsonError::OversizeDocument));
}

#[test]
fn largest_document_is_accepted() {
    // 4 length + 1 tag + 2 name + 4 binary length + 1 subtype + payload + 1 terminator
    let payload = MAX_DOCUMENT_SIZE - 13;
    let d = doc(vec![("b", Bson::Binary { subtype: 0, bytes: vec![0; payload] })]);
    let bytes = encode(&d).unwrap();
    assert_eq!(bytes.len(), MAX_DOCUMENT_SIZE);
    let (back, n) = decode(&bytes).unwrap();
    assert_eq!(n, MAX_DOCUMENT_SIZE);
    assert_eq!(back.len(), 1);
}

#[test]
fn names_with_a_zero_byte_cannot_be_written() {
    let d = doc(vec![("a\u{0}b", Bson::Int32(1))]);
    assert_eq!(encode(&d), Err(BsonError::BadString));
    let nested = doc(vec![("outer", Bson::Document(doc(vec![("\u{0}", Bson::Null)])))]);
    assert_eq!(encode(&nested), Err(BsonError::BadString));
    let regex = doc(vec![(
        "r",
        Bson::Regex { pattern: "a\u{0}".to_string(), options: String::new() },
    )]);
    assert_eq!(encode(&regex), Err(BsonError::BadString));
}

#[test]
fn typed_accessors_report_wrong_type_and_absence() {
    let d = sample();
    assert_eq!(d.get_i32("name"), Err(AccessError::WrongType));
    assert_eq!(d.get_str("value"), Err(AccessError::WrongType));
    assert_eq!(d.get_i64("value"), Err(AccessError::WrongType));
    assert_eq!(d.get_bool("value"), Err(AccessError::WrongType));
    assert_eq!(d.get_document("name").err(), Some(AccessError::WrongType));
    assert_eq!(d.get_array("name").err(), Some(AccessError::WrongType));
    assert_eq!(d.get_str("missing"), Err(AccessError::NotPresent));
    assert!(d.get("missing").is_none());
    assert!(d.contains_key("nested"));
}

#[test]
fn insert_replaces_in_place_and_appends_otherwise() {
    let mut d = doc(vec![("a", Bson::Int32(1)), ("b", Bson::Int32(2))]);
    d.insert("a", Bson::Int32(9));
    d.insert("c", Bson::Int32(3));
    assert_eq!(
        d,
        doc(vec![("a", Bson::Int32(9)), ("b", Bson::Int32(2)), ("c", Bson::Int32(3))])
    );
    assert_eq!(d.remove("b"), Some(Bson::Int32(2)));
    assert_eq!(d.remove("b"), None);
    assert_eq!(d.find("c"), Some(1));
}

#[test]
fn uuid_is_binary_of_subtype_four() {
    let u = Bson::uuid((0u8..16).collect());
    assert_eq!(u.as_uuid(), Some(&(0u8..16).collect::<Vec<u8>>()));
    assert_eq!(Bson::Binary { subtype: 4, bytes: vec![1] }.as_uuid(), None);
    assert_eq!(Bson::Int32(1).as_uuid(), None);
}

#[test]
fn arrays_are_written_with_decimal_index_names() {
    let items: Vec<Bson> = (0..12).map(Bson::Int32).collect();
    let d = doc(vec![("a", Bson::Array((0..12).map(Bson::Int32).collect()))]);
    let bytes = encode(&d).unwrap();
    let mut theirs = bson::Document::new();
    theirs.insert("a", (0..12).map(bson::Bson::Int32).collect::<Vec<_>>());
    assert_eq!(bytes, bson::to_vec(&theirs).unwrap());
    let (back, _) = decode(&bytes).unwrap();
    assert_eq!(back.get_array("a").unwrap(), &items);
}

#[test]
fn every_type_is_written_as_the_bson_crate_writes_it() {
    let mut theirs = bson::Document::new();
    theirs.insert("double", -0.5f64);
    theirs.insert("string", "h\u{e9}llo");
    let mut inner = bson::Document::new();
    inner.insert("k", bson::Bson::Null);
    theirs.insert("document", inner);
    theirs.insert("array", vec![bson::Bson::Boolean(false), bson::Bson::Int64(-7)]);
    theirs.insert(
        "binary",
        bson::Bson::Binary(bson::Binary {
            subtype: bson::spec::BinarySubtype::Generic,
            bytes: vec![1, 2, 3],
        }),
    );
    theirs.insert(
        "uuid",
        bson::Bson::Binary(bson::Binary {
            subtype: bson::spec::BinarySubtype::Uuid,
            bytes: vec![7; 16],
        }),
    );
    theirs.insert("oid", bson::oid::ObjectId::from_bytes([9; 12]));
    theirs.insert("bool", true);
    theirs.insert("date", bson::DateTime::from_millis(1_700_000_000_123));
    theirs.insert("null", bson::Bson::Null);
    theirs.insert(
        "regex",
        bson::Bson::RegularExpression(bson::Regex {
            pattern: "^a.*b$".to_string(),
            options: "i".to_string(),
        }),
    );
    theirs.insert("int32", i32::MIN);
    theirs.insert(
        "timestamp",
        bson::Bson::Timestamp(bson::Timestamp { time: 5, increment: 6 }),
    );
    theirs.insert("int64", i64::MAX);
    let expected = bson::to_vec(&theirs).unwrap();

    let ours = doc(vec![
        ("double", Bson::Double(f64::to_bits(-0.5))),
        ("string", Bson::String("h\u{e9}llo".to_string())),
        ("document", Bson::Document(doc(vec![("k", Bson::Null)]))),
        ("array", Bson::Array(vec![Bson::Boolean(false), Bson::Int64(-7)])),
        ("binary", Bson::Binary { subtype: 0, bytes: vec![1, 2, 3] }),
        ("uuid", Bson::uuid(vec![7; 16])),
        ("oid", Bson::ObjectId([9; 12])),
        ("bool", Bson::Boolean(true)),
        ("date", Bson::DateTime(1_700_000_000_123)),
        ("null", Bson::Null),
        ("regex", Bson::Regex { pattern: "^a.*b$".to_string(), options: "i".to_string() }),
        ("int32", Bson::Int32(i32::MIN)),
        ("timestamp", Bson::Timestamp { time: 5, increment: 6 }),
        ("int64", Bson::Int64(i64::MAX)),
    ]);
    assert_eq!(encode(&ours).unwrap(), expected);
    let (back, n) = decode(&expected).unwrap();
    assert_eq!(n, expected.len());
    assert_eq!(back, ours);
}
