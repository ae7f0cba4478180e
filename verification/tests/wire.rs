use fauxdb::bson::{Bson, Document};
use fauxdb::codec::{encode, BsonError};
use fauxdb::wire_protocol::{
    frame_status, split_frames, FrameStatus, MessageHeader, OpCode, OpMsgMessage, OpMsgSection,
    OpQueryMessage, WireError, WireMessage, WireProtocolHandler, HEADER_SIZE, MAX_MESSAGE_SIZE,
};

fn doc(entries: Vec<(&str, Bson)>) -> Document {
    let mut d = Document::new();
    for (k, v) in entries {
        d.push(k.to_string(), v);
    }
    d
}

fn header(len: usize, request_id: u32, response_to: u32, op: u32) -> Vec<u8> {
    let mut out = Vec::new();
    out.extend_from_slice(&(len as u32).to_le_bytes());
    out.extend_from_slice(&request_id.to_le_bytes());
    out.extend_from_slice(&response_to.to_le_bytes());
    out.extend_from_slice(&op.to_le_bytes());
    out
}

fn op_msg(request_id: u32, flags: u32, sections: &[u8]) -> Vec<u8> {
    let mut out = header(16 + 4 + sections.len(), request_id, 0, 2013);
    out.extend_from_slice(&flags.to_le_bytes());
    out.extend_from_slice(sections);
    out
}

fn body(d: &Document) -> Vec<u8> {
    let mut out = vec![0u8];
    out.extend_from_slice(&encode(d).unwrap());
    out
}

fn sequence(identifier: &str, docs: &[Document]) -> Vec<u8> {
    let mut payload = Vec::new();
    payload.extend_from_slice(identifier.as_bytes());
    payload.push(0);
    for d in docs {
        payload.extend_from_slice(&encode(d).unwrap());
    }
    let mut out = vec![1u8];
    out.extend_from_slice(&((payload.len() + 4) as u32).to_le_bytes());
    out.extend_from_slice(&payload);
    out
}

fn op_query(request_id: u32, collection: &str, skip: i32, ret: i32, query: &Document) -> Vec<u8> {
    let q = encode(query).unwrap();
    let len = 16 + 4 + collection.len() + 1 + 8 + q.len();
    let mut out = header(len, request_id, 0, 2004);
    out.extend_from_slice(&0u32.to_le_bytes());
    out.extend_from_slice(collection.as_bytes());
    out.push(0);
    out.extend_from_slice(&skip.to_le_bytes());
    out.extend_from_slice(&ret.to_le_bytes());
    out.extend_from_slice(&q);
    out
}

#[test]
fn test_wire_protocol_opcodes() {
    assert_eq!(OpCode::from_u32(1), Some(OpCode::Reply));
    assert_eq!(OpCode::from_u32(2004), Some(OpCode::Query));
    assert_eq!(OpCode::from_u32(2002), Some(OpCode::Insert));
    assert_eq!(OpCode::from_u32(9999), None);
}

#[test]
fn test_wire_protocol_handling() {
    assert_eq!(OpCode::from_u32(1), Some(OpCode::Reply));
    assert_eq!(OpCode::from_u32(2004), Some(OpCode::Query));
    assert_eq!(OpCode::from_u32(2002), Some(OpCode::Insert));
    assert_eq!(OpCode::from_u32(9999), None);

    let header = MessageHeader {
        message_length: 100,
        request_id: 1,
        response_to: 0,
        op_code: OpCode::Query,
    };
    assert_eq!(header.message_length, 100);
    assert_eq!(header.request_id, 1);
    assert_eq!(header.response_to, 0);
    assert_eq!(header.op_code, OpCode::Query);
}

#[test]
fn every_opcode_has_its_number() {
    let table = [
        (1, OpCode::Reply),
        (2001, OpCode::Update),
        (2002, OpCode::Insert),
        (2003, OpCode::GetByOID),
        (2004, OpCode::Query),
        (2005, OpCode::GetMore),
        (2006, OpCode::Delete),
        (2007, OpCode::KillCursors),
        (2012, OpCode::Compressed),
        (2013, OpCode::Msg),
    ];
    for (n, op) in table {
        assert_eq!(OpCode::from_u32(n), Some(op));
        assert_eq!(OpCode::from_u32(n).unwrap().to_u32(), n);
    }
    for n in [0u32, 2, 2000, 2008, 2011, 2014, u32::MAX] {
        assert_eq!(OpCode::from_u32(n), None);
    }
}

#[test]
fn header_round_trip() {
    let h = MessageHeader {
        message_length: 0x01020304,
        request_id: 0xa0b0c0d0,
        response_to: 7,
        op_code: OpCode::Msg,
    };
    let bytes = h.to_bytes();
    assert_eq!(
        bytes,
        vec![4, 3, 2, 1, 0xd0, 0xc0, 0xb0, 0xa0, 7, 0, 0, 0, 0xdd, 0x07, 0, 0]
    );
    assert_eq!(MessageHeader::parse(&bytes), Ok(h));
}

#[test]
fn header_errors() {
    assert_eq!(MessageHeader::parse(&[0; 15]), Err(WireError::TooShort));
    assert_eq!(
        MessageHeader::parse(&header(15, 1, 0, 2013)),
        Err(WireError::InvalidLength)
    );
    assert_eq!(
        MessageHeader::parse(&header(MAX_MESSAGE_SIZE, 1, 0, 2013)),
        Err(WireError::InvalidLength)
    );
    assert_eq!(
        MessageHeader::parse(&header(MAX_MESSAGE_SIZE + 1, 1, 0, 2013)),
        Err(WireError::InvalidLength)
    );
    assert_eq!(
        MessageHeader::parse(&header(16, 1, 0, 77)),
        Err(WireError::UnknownOpCode(77))
    );
    assert!(MessageHeader::parse(&header(MAX_MESSAGE_SIZE - 1, 1, 0, 2013)).is_ok());
    assert!(MessageHeader::parse(&header(HEADER_SIZE, 1, 0, 2013)).is_ok());
}

#[test]
fn frames_are_split_in_order() {
    let a = op_msg(1, 0, &body(&doc(vec![("ping", Bson::Int32(1))])));
    let b = op_query(2, "admin.$cmd", 0, -1, &doc(vec![("isMaster", Bson::Int32(1))]));
    let c = op_msg(3, 0, &body(&doc(vec![("hello", Bson::Int32(1))])));
    let mut stream = Vec::new();
    stream.extend_from_slice(&a);
    stream.extend_from_slice(&b);
    stream.extend_from_slice(&c);
    let (frames, used) = split_frames(&stream);
    assert_eq!(frames, vec![a.clone(), b.clone(), c.clone()]);
    assert_eq!(used, stream.len());

    // a partial frame at the end is left in the buffer
    stream.extend_from_slice(&a[..10]);
    let (frames, used) = split_frames(&stream);
    assert_eq!(frames.len(), 3);
    assert_eq!(used, a.len() + b.len() + c.len());
    assert_eq!(frame_status(&stream[used..]), FrameStatus::NeedMore);
}

#[test]
fn frame_status_of_a_buffer() {
    let a = op_msg(1, 0, &body(&doc(vec![("ping", Bson::Int32(1))])));
    assert_eq!(frame_status(&[]), FrameStatus::NeedMore);
    assert_eq!(frame_status(&a[..3]), FrameStatus::NeedMore);
    assert_eq!(frame_status(&a[..a.len() - 1]), FrameStatus::NeedMore);
    assert_eq!(frame_status(&a), FrameStatus::Ready(a.len()));
    assert_eq!(frame_status(&[3, 0, 0, 0]), FrameStatus::Invalid);
    assert_eq!(frame_status(&[0xff, 0xff, 0xff, 0xff]), FrameStatus::Invalid);
    assert_eq!(frame_status(&(MAX_MESSAGE_SIZE as u32).to_le_bytes()), FrameStatus::Invalid);
    assert_eq!(
        frame_status(&(MAX_MESSAGE_SIZE as u32 - 1).to_le_bytes()),
        FrameStatus::NeedMore
    );
    let (frames, used) = split_frames(&[3, 0, 0, 0, 9, 9]);
    assert!(frames.is_empty());
    assert_eq!(used, 0);
}

#[test]
fn op_msg_with_a_body() {
    let command = doc(vec![("ping", Bson::Int32(1)), ("$db", Bson::String("admin".to_string()))]);
    let frame = op_msg(42, 0, &body(&command));
    let message = WireProtocolHandler::parse_message(&frame).unwrap();
    assert_eq!(message.get_request_id(), 42);
    assert_eq!(message.get_command_document(), command);
    match message {
        WireMessage::Msg(m) => {
            assert_eq!(m.flags, 0);
            assert_eq!(m.sections.len(), 1);
            assert_eq!(m.header.op_code, OpCode::Msg);
        }
        _ => panic!("an OP_MSG was sent"),
    }
}

#[test]
fn op_msg_document_sequence_joins_the_command() {
    let command = doc(vec![("insert", Bson::String("users".to_string()))]);
    let d1 = doc(vec![("_id", Bson::Int32(1))]);
    let d2 = doc(vec![("_id", Bson::Int32(2))]);
    let mut sections = body(&command);
    sections.extend_from_slice(&sequence("documents", &[d1.clone_document(), d2.clone_document()]));
    let frame = op_msg(5, 0, &sections);
    let parsed = OpMsgMessage::parse(&frame).unwrap();
    assert_eq!(parsed.sections.len(), 2);
    match &parsed.sections[1] {
        OpMsgSection::DocumentSequence { identifier, documents } => {
            assert_eq!(identifier, "documents");
            assert_eq!(documents.len(), 2);
        }
        _ => panic!("a document sequence was sent"),
    }
    let joined = WireMessage::Msg(parsed).get_command_document();
    assert_eq!(
        joined,
        doc(vec![
            ("insert", Bson::String("users".to_string())),
            ("documents", Bson::Array(vec![Bson::Document(d1), Bson::Document(d2)])),
        ])
    );
}

#[test]
fn op_msg_errors() {
    let ping = doc(vec![("ping", Bson::Int32(1))]);
    // the checksum flag is refused
    assert_eq!(
        WireProtocolHandler::parse_message(&op_msg(1, 1, &body(&ping))).err(),
        Some(WireError::ChecksumNotSupported)
    );
    // a section of an unknown kind
    let mut bad = body(&ping);
    bad[0] = 2;
    assert_eq!(
        WireProtocolHandler::parse_message(&op_msg(1, 0, &bad)).err(),
        Some(WireError::BadSection)
    );
    // a document that runs past the frame
    let mut cut = body(&ping);
    cut.truncate(cut.len() - 2);
    assert_eq!(
        WireProtocolHandler::parse_message(&op_msg(1, 0, &cut)).err(),
        Some(WireError::Bson(BsonError::TruncatedDocument))
    );
    // fewer bytes than the header declares
    let whole = op_msg(1, 0, &body(&ping));
    assert_eq!(
        WireProtocolHandler::parse_message(&whole[..whole.len() - 1]).err(),
        Some(WireError::Incomplete)
    );
    assert_eq!(
        WireProtocolHandler::parse_message(&whole[..8]).err(),
        Some(WireError::TooShort)
    );
    // an opcode that is known but not served
    let mut legacy = header(16, 1, 0, 2002);
    legacy.extend_from_slice(&[]);
    assert_eq!(
        WireProtocolHandler::parse_message(&legacy).err(),
        Some(WireError::UnsupportedOpCode(OpCode::Insert))
    );
    assert_eq!(
        WireProtocolHandler::parse_message(&header(16, 1, 0, 12345)).err(),
        Some(WireError::UnknownOpCode(12345))
    );
}

#[test]
fn op_query_is_read() {
    let query = doc(vec![("isMaster", Bson::Int32(1))]);
    let frame = op_query(9, "admin.$cmd", 0, -1, &query);
    let parsed = OpQueryMessage::parse(&frame).unwrap();
    assert_eq!(parsed.full_collection_name, "admin.$cmd");
    assert_eq!(parsed.number_to_skip, 0);
    assert_eq!(parsed.number_to_return, u32::MAX);
    assert_eq!(parsed.query, query);
    assert!(parsed.return_fields.is_none());
    let message = WireProtocolHandler::parse_message(&frame).unwrap();
    assert_eq!(message.get_request_id(), 9);
    // the command document carries what the message said beside the query
    assert_eq!(
        message.get_command_document(),
        doc(vec![
            ("isMaster", Bson::Int32(1)),
            ("fullCollectionName", Bson::String("admin.$cmd".to_string())),
            ("numberToSkip", Bson::Int32(0)),
            ("numberToReturn", Bson::Int64(4294967295)),
        ])
    );
}

#[test]
fn op_query_with_a_field_selector() {
    let query = doc(vec![("find", Bson::String("c".to_string()))]);
    let fields = doc(vec![("name", Bson::Int32(1))]);
    let mut frame = op_query(9, "db.c", 3, 4, &query);
    frame.extend_from_slice(&encode(&fields).unwrap());
    let len = frame.len() as u32;
    frame[..4].copy_from_slice(&len.to_le_bytes());
    let parsed = OpQueryMessage::parse(&frame).unwrap();
    assert_eq!(parsed.number_to_skip, 3);
    assert_eq!(parsed.number_to_return, 4);
    assert_eq!(parsed.return_fields, Some(fields));
}

#[test]
fn reply_frame_layout() {
    let reply = doc(vec![("ok", Bson::Double(f64::to_bits(1.0)))]);
    let bytes = WireProtocolHandler::build_reply_message(77, 9, &reply).unwrap();
    let encoded = encode(&reply).unwrap();
    assert_eq!(bytes.len(), 36 + encoded.len());
    assert_eq!(&bytes[0..4], &((36 + encoded.len()) as u32).to_le_bytes());
    assert_eq!(&bytes[4..8], &77u32.to_le_bytes());
    assert_eq!(&bytes[8..12], &9u32.to_le_bytes());
    assert_eq!(&bytes[12..16], &1u32.to_le_bytes());
    // flags, cursor id, starting from
    assert_eq!(&bytes[16..32], &[0u8; 16]);
    // number returned
    assert_eq!(&bytes[32..36], &1u32.to_le_bytes());
    assert_eq!(&bytes[36..], &encoded[..]);
}

#[test]
fn msg_frame_layout() {
    let reply = doc(vec![("ok", Bson::Double(f64::to_bits(1.0)))]);
    let bytes = WireProtocolHandler::build_msg_response(78, 10, &reply).unwrap();
    let encoded = encode(&reply).unwrap();
    assert_eq!(bytes.len(), 21 + encoded.len());
    assert_eq!(&bytes[0..4], &((21 + encoded.len()) as u32).to_le_bytes());
    assert_eq!(&bytes[4..8], &78u32.to_le_bytes());
    assert_eq!(&bytes[8..12], &10u32.to_le_bytes());
    assert_eq!(&bytes[12..16], &2013u32.to_le_bytes());
    assert_eq!(&bytes[16..20], &[0u8; 4]);
    assert_eq!(bytes[20], 0);
    assert_eq!(&bytes[21..], &encoded[..]);
    // what was built can be read again
    let back = WireProtocolHandler::parse_message(&bytes).unwrap();
    assert_eq!(back.get_command_document(), reply);
}

#[test]
fn response_answers_in_the_form_of_the_request() {
    let reply = doc(vec![("ok", Bson::Double(f64::to_bits(1.0)))]);
    let msg = WireProtocolHandler::parse_message(&op_msg(
        31,
        0,
        &body(&doc(vec![("ping", Bson::Int32(1))])),
    ))
    .unwrap();
    let query = WireProtocolHandler::parse_message(&op_query(
        32,
        "admin.$cmd",
        0,
        -1,
        &doc(vec![("ping", Bson::Int32(1))]),
    ))
    .unwrap();
    let a = WireProtocolHandler::build_response(&msg, 100, &reply).unwrap();
    let b = WireProtocolHandler::build_response(&query, 101, &reply).unwrap();
    let ha = MessageHeader::parse(&a).unwrap();
    let hb = MessageHeader::parse(&b).unwrap();
    assert_eq!((ha.request_id, ha.response_to, ha.op_code), (100, 31, OpCode::Msg));
    assert_eq!((hb.request_id, hb.response_to, hb.op_code), (101, 32, OpCode::Reply));
    assert_eq!(ha.message_length as usize, a.len());
    assert_eq!(hb.message_length as usize, b.len());
}

#[test]
fn a_document_that_cannot_be_written_gives_no_response() {
    let bad = doc(vec![("a\u{0}", Bson::Int32(1))]);
    assert_eq!(
        WireProtocolHandler::build_msg_response(1, 1, &bad),
        Err(WireError::Bson(BsonError::BadString))
    );
    assert_eq!(
        WireProtocolHandler::build_reply_message(1, 1, &bad),
        Err(WireError::Bson(BsonError::BadString))
    );
}
