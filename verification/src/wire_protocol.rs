//! Framing, parsing and emission of wire messages.
//!
//! Every message starts with a sixteen-byte header of four little-endian
//! integers: the length of the whole message, the sender's request id, the
//! id of the request it answers, and the opcode.

use crate::bson::{
    docs_view, lemma_view_array, lemma_view_document, values_view, with_entry, Bson, BsonView,
    DocView, Document,
};
use crate::codec::{
    decode_document, document_matches, encode, encode_document, first_zero, legal_document,
    parse_cstring, parse_document, push_all, read_cstring, read_u32, read_u32_at, BsonError,
    MAX_DOCUMENT_SIZE,
};
use vstd::bytes::{
    lemma_auto_spec_u32_to_from_le_bytes, lemma_auto_spec_u64_to_from_le_bytes,
    spec_u32_to_le_bytes, spec_u64_to_le_bytes, u32_to_le_bytes, u64_to_le_bytes,
};
use vstd::prelude::*;
use vstd::slice::slice_subrange;

verus! {

/// Bytes of a message header.
pub const HEADER_SIZE: usize = 16;

/// The size, in bytes, from which on a message is refused; it is announced
/// to clients as the limit.
pub const MAX_MESSAGE_SIZE: usize = 48000000;

/// The operation a message carries.
#[derive(Debug, Clone, Copy, PartialEq, Eq, Structural)]
pub enum OpCode {
    Reply,
    Update,
    Insert,
    GetByOID,
    Query,
    GetMore,
    Delete,
    KillCursors,
    Compressed,
    Msg,
}

/// Why bytes are not a message.
#[derive(Debug, Clone, Copy, PartialEq, Eq, Structural)]
pub enum WireError {
    /// Fewer bytes than the header or the fixed fields of the message need.
    TooShort,
    /// The declared length is under sixteen, or `MAX_MESSAGE_SIZE` or more.
    InvalidLength,
    /// The declared length is beyond the bytes at hand.
    Incomplete,
    /// The opcode is none of the known ones.
    UnknownOpCode(u32),
    /// The opcode is known and is not served.
    UnsupportedOpCode(OpCode),
    /// The message announces a checksum.
    ChecksumNotSupported,
    /// A section of unknown kind, or a document sequence whose size does not
    /// fit its message.
    BadSection,
    /// A name without terminator or not in UTF-8.
    BadString,
    /// A document inside the message is malformed.
    Bson(BsonError),
    /// Bytes are left in the message after its last field.
    TrailingBytes,
}

/// The opcode with the given number.
pub open spec fn opcode_of(code: u32) -> Option<OpCode> {
    if code == 1 {
        Some(OpCode::Reply)
    } else if code == 2001 {
        Some(OpCode::Update)
    } else if code == 2002 {
        Some(OpCode::Insert)
    } else if code == 2003 {
        Some(OpCode::GetByOID)
    } else if code == 2004 {
        Some(OpCode::Query)
    } else if code == 2005 {
        Some(OpCode::GetMore)
    } else if code == 2006 {
        Some(OpCode::Delete)
    } else if code == 2007 {
        Some(OpCode::KillCursors)
    } else if code == 2012 {
        Some(OpCode::Compressed)
    } else if code == 2013 {
        Some(OpCode::Msg)
    } else {
        None
    }
}

impl OpCode {
    /// The number of the opcode on the wire.
    pub open spec fn code(self) -> u32 {
        match self {
            OpCode::Reply => 1,
            OpCode::Update => 2001,
            OpCode::Insert => 2002,
            OpCode::GetByOID => 2003,
            OpCode::Query => 2004,
            OpCode::GetMore => 2005,
            OpCode::Delete => 2006,
            OpCode::KillCursors => 2007,
            OpCode::Compressed => 2012,
            OpCode::Msg => 2013,
        }
    }

    /// The opcode with the given number, if there is one.
    pub fn from_u32(code: u32) -> (r: Option<Self>)
        ensures
            r == opcode_of(code),
            r matches Some(op) ==> op.code() == code,
    {
        match code {
            1 => Some(OpCode::Reply),
            2001 => Some(OpCode::Update),
            2002 => Some(OpCode::Insert),
            2003 => Some(OpCode::GetByOID),
            2004 => Some(OpCode::Query),
            2005 => Some(OpCode::GetMore),
            2006 => Some(OpCode::Delete),
            2007 => Some(OpCode::KillCursors),
            2012 => Some(OpCode::Compressed),
            2013 => Some(OpCode::Msg),
            _ => None,
        }
    }

    /// The number of the opcode on the wire.
    pub fn to_u32(&self) -> (r: u32)
        ensures
            r == self.code(),
            opcode_of(r) == Some(*self),
    {
        match self {
            OpCode::Reply => 1,
            OpCode::Update => 2001,
            OpCode::Insert => 2002,
            OpCode::GetByOID => 2003,
            OpCode::Query => 2004,
            OpCode::GetMore => 2005,
            OpCode::Delete => 2006,
            OpCode::KillCursors => 2007,
            OpCode::Compressed => 2012,
            OpCode::Msg => 2013,
        }
    }
}

/// The header of a message.
#[derive(Debug, Clone, Copy, PartialEq, Eq, Structural)]
pub struct MessageHeader {
    pub message_length: u32,
    pub request_id: u32,
    pub response_to: u32,
    pub op_code: OpCode,
}

/// The sixteen bytes of a header.
pub open spec fn header_bytes(h: MessageHeader) -> Seq<u8> {
    spec_u32_to_le_bytes(h.message_length) + spec_u32_to_le_bytes(h.request_id)
        + spec_u32_to_le_bytes(h.response_to) + spec_u32_to_le_bytes(h.op_code.code())
}

/// The header at the start of `b`.
pub open spec fn parse_header(b: Seq<u8>) -> Result<MessageHeader, WireError> {
    if b.len() < HEADER_SIZE {
        Err(WireError::TooShort)
    } else if read_u32(b, 0) < HEADER_SIZE || read_u32(b, 0) >= MAX_MESSAGE_SIZE {
        Err(WireError::InvalidLength)
    } else {
        match opcode_of(read_u32(b, 12)) {
            None => Err(WireError::UnknownOpCode(read_u32(b, 12))),
            Some(op) => Ok(
                MessageHeader {
                    message_length: read_u32(b, 0),
                    request_id: read_u32(b, 4),
                    response_to: read_u32(b, 8),
                    op_code: op,
                },
            ),
        }
    }
}

impl MessageHeader {
    /// Reads the header at the start of `data`.
    ///
    /// Fewer than sixteen bytes give `TooShort`; a declared length under
    /// sixteen, or of `MAX_MESSAGE_SIZE` or more, gives `InvalidLength`; an opcode
    /// that is not known gives `UnknownOpCode`.
    pub fn parse(data: &[u8]) -> (r: Result<Self, WireError>)
        ensures
            r == parse_header(data@),
    {
        if data.len() < HEADER_SIZE {
            return Err(WireError::TooShort);
        }
        let message_length = read_u32_at(data, 0);
        let request_id = read_u32_at(data, 4);
        let response_to = read_u32_at(data, 8);
        let op_code_raw = read_u32_at(data, 12);
        if (message_length as usize) < HEADER_SIZE || message_length as usize >= MAX_MESSAGE_SIZE {
            return Err(WireError::InvalidLength);
        }
        match OpCode::from_u32(op_code_raw) {
            None => Err(WireError::UnknownOpCode(op_code_raw)),
            Some(op_code) => Ok(MessageHeader { message_length, request_id, response_to, op_code }),
        }
    }

    /// Writes the header.
    pub fn to_bytes(&self) -> (r: Vec<u8>)
        ensures
            r@ == header_bytes(*self),
            r@.len() == HEADER_SIZE,
    {
        proof {
            lemma_auto_spec_u32_to_from_le_bytes();
        }
        let mut out = u32_to_le_bytes(self.message_length);
        let a = u32_to_le_bytes(self.request_id);
        push_all(&mut out, a.as_slice());
        let b = u32_to_le_bytes(self.response_to);
        push_all(&mut out, b.as_slice());
        let c = u32_to_le_bytes(self.op_code.to_u32());
        push_all(&mut out, c.as_slice());
        out
    }
}

/// A header that was written is read back, whatever follows it.
pub proof fn lemma_parse_header(h: MessageHeader, rest: Seq<u8>)
    requires
        HEADER_SIZE <= h.message_length < MAX_MESSAGE_SIZE,
    ensures
        parse_header(header_bytes(h) + rest) == Ok::<MessageHeader, WireError>(h),
        header_bytes(h).len() == HEADER_SIZE,
{
    lemma_auto_spec_u32_to_from_le_bytes();
    let b = header_bytes(h) + rest;
    assert(b.subrange(0, 4) =~= spec_u32_to_le_bytes(h.message_length));
    assert(b.subrange(4, 8) =~= spec_u32_to_le_bytes(h.request_id));
    assert(b.subrange(8, 12) =~= spec_u32_to_le_bytes(h.response_to));
    assert(b.subrange(12, 16) =~= spec_u32_to_le_bytes(h.op_code.code()));
}

/// What the start of a buffer says about the next message.
#[derive(Debug, Clone, Copy, PartialEq, Eq, Structural)]
pub enum FrameStatus {
    /// The message is not whole yet: more bytes have to be read first.
    NeedMore,
    /// A whole message of this many bytes stands at the start.
    Ready(usize),
    /// The declared length is under sixteen, or `MAX_MESSAGE_SIZE` or more.
    Invalid,
}

/// What the start of `b` says about the next message.
pub open spec fn frame_status_of(b: Seq<u8>) -> FrameStatus {
    if b.len() < 4 {
        FrameStatus::NeedMore
    } else if read_u32(b, 0) < HEADER_SIZE || read_u32(b, 0) >= MAX_MESSAGE_SIZE {
        FrameStatus::Invalid
    } else if read_u32(b, 0) > b.len() {
        FrameStatus::NeedMore
    } else {
        FrameStatus::Ready(read_u32(b, 0) as usize)
    }
}

/// Looks at the length prefix of a buffer and says whether a whole message
/// stands at its start. Nothing but the first four bytes is read.
pub fn frame_status(buf: &[u8]) -> (r: FrameStatus)
    ensures
        r == frame_status_of(buf@),
{
    if buf.len() < 4 {
        return FrameStatus::NeedMore;
    }
    let n = read_u32_at(buf, 0) as usize;
    if n < HEADER_SIZE || n >= MAX_MESSAGE_SIZE {
        FrameStatus::Invalid
    } else if n > buf.len() {
        FrameStatus::NeedMore
    } else {
        FrameStatus::Ready(n)
    }
}

/// The whole messages at the start of `b`, in order.
pub open spec fn split_stream(b: Seq<u8>) -> Seq<Seq<u8>>
    decreases b.len(),
{
    match frame_status_of(b) {
        FrameStatus::Ready(n) => seq![b.take(n as int)] + split_stream(b.skip(n as int)),
        _ => Seq::empty(),
    }
}

/// The number of bytes that the whole messages at the start of `b` take.
pub open spec fn split_consumed(b: Seq<u8>) -> int
    decreases b.len(),
{
    match frame_status_of(b) {
        FrameStatus::Ready(n) => n + split_consumed(b.skip(n as int)),
        _ => 0,
    }
}

/// The byte strings that a list of buffers holds.
pub open spec fn frames_view(f: Seq<Vec<u8>>) -> Seq<Seq<u8>> {
    Seq::new(f.len(), |i: int| f[i]@)
}

/// The messages found from `off` on follow those found before.
proof fn lemma_split_step(b: Seq<u8>, off: int, n: int)
    requires
        0 <= off <= b.len(),
        frame_status_of(b.skip(off)) == FrameStatus::Ready(n as usize),
        0 <= n <= usize::MAX,
    ensures
        split_stream(b.skip(off)) == seq![b.subrange(off, off + n)] + split_stream(
            b.skip(off + n),
        ),
        split_consumed(b.skip(off)) == n + split_consumed(b.skip(off + n)),
        HEADER_SIZE <= n <= b.len() - off,
{
    let cur = b.skip(off);
    assert(cur.take(n) =~= b.subrange(off, off + n));
    assert(cur.skip(n) =~= b.skip(off + n));
}

/// Cuts a buffer into the whole messages at its start and says how many
/// bytes they take. What follows them, an unfinished message or one with an
/// invalid length, is left in place.
pub fn split_frames(buf: &[u8]) -> (r: (Vec<Vec<u8>>, usize))
    ensures
        frames_view(r.0@) == split_stream(buf@),
        r.1 == split_consumed(buf@),
        r.1 <= buf@.len(),
{
    let mut frames: Vec<Vec<u8>> = Vec::new();
    let mut off: usize = 0;
    proof {
        assert(buf@.skip(0) =~= buf@);
        assert(frames_view(frames@) + split_stream(buf@) =~= split_stream(buf@));
    }
    loop
        invariant
            off <= buf.len(),
            frames_view(frames@) + split_stream(buf@.skip(off as int)) == split_stream(buf@),
            off + split_consumed(buf@.skip(off as int)) == split_consumed(buf@),
        decreases buf.len() - off,
    {
        let cur = slice_subrange(buf, off, buf.len());
        assert(cur@ =~= buf@.skip(off as int));
        match frame_status(cur) {
            FrameStatus::Ready(n) => {
                proof {
                    lemma_split_step(buf@, off as int, n as int);
                }
                let mut f: Vec<u8> = Vec::new();
                push_all(&mut f, slice_subrange(buf, off, off + n));
                let ghost before = frames_view(frames@);
                frames.push(f);
                proof {
                    assert(f@ =~= buf@.subrange(off as int, off + n));
                    assert(frames_view(frames@) =~= before.push(f@));
                    assert(before.push(f@) + split_stream(buf@.skip(off + n)) =~= before + (seq![
                        f@,
                    ] + split_stream(buf@.skip(off + n))));
                }
                off = off + n;
            },
            _ => {
                proof {
                    assert(frames_view(frames@) + Seq::<Seq<u8>>::empty() =~= frames_view(
                        frames@,
                    ));
                }
                return (frames, off);
            },
        }
    }
}

/// A message whose declared length is its own length, within the limits.
pub open spec fn well_framed(f: Seq<u8>) -> bool {
    HEADER_SIZE <= f.len() < MAX_MESSAGE_SIZE && read_u32(f, 0) == f.len()
}

/// The messages of a list, one after the other.
pub open spec fn concat_frames(fs: Seq<Seq<u8>>) -> Seq<u8>
    decreases fs.len(),
{
    if fs.len() == 0 {
        Seq::empty()
    } else {
        fs[0] + concat_frames(fs.drop_first())
    }
}

/// Framing: a stream made of well-framed messages, one after the other, is
/// cut into exactly those messages, in order, and every byte of it is taken.
pub proof fn lemma_split_concat(fs: Seq<Seq<u8>>)
    requires
        forall|i: int| 0 <= i < fs.len() ==> well_framed(#[trigger] fs[i]),
    ensures
        split_stream(concat_frames(fs)) == fs,
        split_consumed(concat_frames(fs)) == concat_frames(fs).len(),
    decreases fs.len(),
{
    if fs.len() == 0 {
        assert(split_stream(concat_frames(fs)) =~= fs);
    } else {
        let rest = fs.drop_first();
        let b = concat_frames(fs);
        let n = fs[0].len() as int;
        assert(well_framed(fs[0]));
        assert(b.subrange(0, 4) =~= fs[0].subrange(0, 4));
        assert(b.take(n) =~= fs[0]);
        assert(b.skip(n) =~= concat_frames(rest));
        assert forall|i: int| 0 <= i < rest.len() implies well_framed(#[trigger] rest[i]) by {
            assert(rest[i] == fs[i + 1]);
        }
        lemma_split_concat(rest);
        assert(seq![fs[0]] + rest =~= fs);
    }
}

/// A message that starts with a written header of its own length is
/// well-framed.
pub proof fn lemma_well_framed(h: MessageHeader, payload: Seq<u8>)
    requires
        h.message_length == HEADER_SIZE + payload.len(),
        h.message_length < MAX_MESSAGE_SIZE,
    ensures
        well_framed(header_bytes(h) + payload),
{
    lemma_auto_spec_u32_to_from_le_bytes();
    let b = header_bytes(h) + payload;
    assert(b.subrange(0, 4) =~= spec_u32_to_le_bytes(h.message_length));
}

/// The bytes of a reply to a legacy query: header, no flags, no cursor, one
/// document.
pub open spec fn reply_frame(request_id: u32, response_to: u32, body: Seq<u8>) -> Seq<u8> {
    header_bytes(
        MessageHeader {
            message_length: (36 + body.len()) as u32,
            request_id,
            response_to,
            op_code: OpCode::Reply,
        },
    ) + spec_u32_to_le_bytes(0) + spec_u64_to_le_bytes(0) + spec_u32_to_le_bytes(0)
        + spec_u32_to_le_bytes(1) + body
}

/// The bytes of a message with no flags and one body section.
pub open spec fn msg_frame(request_id: u32, response_to: u32, body: Seq<u8>) -> Seq<u8> {
    header_bytes(
        MessageHeader {
            message_length: (21 + body.len()) as u32,
            request_id,
            response_to,
            op_code: OpCode::Msg,
        },
    ) + spec_u32_to_le_bytes(0) + seq![0u8] + body
}

/// Response pairing: the header of a reply names the request it answers,
/// and declares the reply's own length.
pub proof fn lemma_reply_frame_header(request_id: u32, response_to: u32, body: Seq<u8>)
    requires
        body.len() <= MAX_DOCUMENT_SIZE,
    ensures
        parse_header(reply_frame(request_id, response_to, body)) == Ok::<
            MessageHeader,
            WireError,
        >(
            MessageHeader {
                message_length: (36 + body.len()) as u32,
                request_id,
                response_to,
                op_code: OpCode::Reply,
            },
        ),
        reply_frame(request_id, response_to, body).len() == 36 + body.len(),
        well_framed(reply_frame(request_id, response_to, body)),
{
    lemma_auto_spec_u32_to_from_le_bytes();
    lemma_auto_spec_u64_to_from_le_bytes();
    let h = MessageHeader {
        message_length: (36 + body.len()) as u32,
        request_id,
        response_to,
        op_code: OpCode::Reply,
    };
    let payload = spec_u32_to_le_bytes(0) + spec_u64_to_le_bytes(0) + spec_u32_to_le_bytes(0)
        + spec_u32_to_le_bytes(1) + body;
    assert(reply_frame(request_id, response_to, body) =~= header_bytes(h) + payload);
    lemma_parse_header(h, payload);
    lemma_well_framed(h, payload);
}

/// Response pairing: the header of a message names the request it answers,
/// and declares the message's own length.
pub proof fn lemma_msg_frame_header(request_id: u32, response_to: u32, body: Seq<u8>)
    requires
        body.len() <= MAX_DOCUMENT_SIZE,
    ensures
        parse_header(msg_frame(request_id, response_to, body)) == Ok::<MessageHeader, WireError>(
            MessageHeader {
                message_length: (21 + body.len()) as u32,
                request_id,
                response_to,
                op_code: OpCode::Msg,
            },
        ),
        msg_frame(request_id, response_to, body).len() == 21 + body.len(),
        well_framed(msg_frame(request_id, response_to, body)),
{
    lemma_auto_spec_u32_to_from_le_bytes();
    let h = MessageHeader {
        message_length: (21 + body.len()) as u32,
        request_id,
        response_to,
        op_code: OpCode::Msg,
    };
    let payload = spec_u32_to_le_bytes(0) + seq![0u8] + body;
    assert(msg_frame(request_id, response_to, body) =~= header_bytes(h) + payload);
    lemma_parse_header(h, payload);
    lemma_well_framed(h, payload);
}

/// One section of a message.
#[derive(Debug, PartialEq)]
pub enum OpMsgSection {
    /// The command document.
    Body { document: Document },
    /// A named run of documents that belongs to the command.
    DocumentSequence { identifier: String, documents: Vec<Document> },
}

/// Model of a section.
pub enum SectionView {
    Body(DocView),
    Sequence(Seq<char>, Seq<DocView>),
}

impl View for OpMsgSection {
    type V = SectionView;

    open spec fn view(&self) -> SectionView {
        match self {
            OpMsgSection::Body { document } => SectionView::Body(document@),
            OpMsgSection::DocumentSequence { identifier, documents } => SectionView::Sequence(
                identifier@,
                docs_view(documents@),
            ),
        }
    }
}

/// The models of a list of sections.
pub open spec fn sections_view(s: Seq<OpMsgSection>) -> Seq<SectionView> {
    Seq::new(s.len(), |i: int| s[i]@)
}

/// A message of sections.
#[derive(Debug, PartialEq)]
pub struct OpMsgMessage {
    pub header: MessageHeader,
    pub flags: u32,
    pub sections: Vec<OpMsgSection>,
}

/// Model of a message of sections.
pub struct OpMsgView {
    pub header: MessageHeader,
    pub flags: u32,
    pub sections: Seq<SectionView>,
}

impl View for OpMsgMessage {
    type V = OpMsgView;

    open spec fn view(&self) -> OpMsgView {
        OpMsgView {
            header: self.header,
            flags: self.flags,
            sections: sections_view(self.sections@),
        }
    }
}

/// A legacy query.
#[derive(Debug, PartialEq)]
pub struct OpQueryMessage {
    pub header: MessageHeader,
    pub flags: u32,
    pub full_collection_name: String,
    pub number_to_skip: u32,
    pub number_to_return: u32,
    pub query: Document,
    pub return_fields: Option<Document>,
}

/// Model of a legacy query.
pub struct OpQueryView {
    pub header: MessageHeader,
    pub flags: u32,
    pub full_collection_name: Seq<char>,
    pub number_to_skip: u32,
    pub number_to_return: u32,
    pub query: DocView,
    pub return_fields: Option<DocView>,
}

impl View for OpQueryMessage {
    type V = OpQueryView;

    open spec fn view(&self) -> OpQueryView {
        OpQueryView {
            header: self.header,
            flags: self.flags,
            full_collection_name: self.full_collection_name@,
            number_to_skip: self.number_to_skip,
            number_to_return: self.number_to_return,
            query: self.query@,
            return_fields: match self.return_fields {
                Some(d) => Some(d@),
                None => None,
            },
        }
    }
}

/// A request as it came over the wire.
#[derive(Debug, PartialEq)]
pub enum WireMessage {
    Query(OpQueryMessage),
    Msg(OpMsgMessage),
}

/// Model of a request.
pub enum WireMessageView {
    Query(OpQueryView),
    Msg(OpMsgView),
}

impl View for WireMessage {
    type V = WireMessageView;

    open spec fn view(&self) -> WireMessageView {
        match self {
            WireMessage::Query(q) => WireMessageView::Query(q@),
            WireMessage::Msg(m) => WireMessageView::Msg(m@),
        }
    }
}

/// `acc` followed by what `r` holds, or the error of `r`.
pub open spec fn prepend_documents(acc: Seq<DocView>, r: Result<Seq<DocView>, BsonError>) -> Result<
    Seq<DocView>,
    BsonError,
> {
    match r {
        Ok(t) => Ok(acc + t),
        Err(e) => Err(e),
    }
}

/// The documents that fill `b` from its first to its last byte.
pub open spec fn parse_documents(b: Seq<u8>) -> Result<Seq<DocView>, BsonError>
    decreases b.len(),
{
    if b.len() == 0 {
        Ok(Seq::empty())
    } else {
        match parse_document(b) {
            Err(e) => Err(e),
            Ok((d, n)) => {
                if n < 1 || n > b.len() {
                    Err(BsonError::TruncatedDocument)
                } else {
                    prepend_documents(seq![d], parse_documents(b.skip(n)))
                }
            },
        }
    }
}

/// The section at the start of `b`, with the number of bytes it takes.
pub open spec fn parse_section(b: Seq<u8>) -> Result<(SectionView, int), WireError> {
    if b.len() == 0 {
        Err(WireError::TooShort)
    } else if b[0] == 0u8 {
        match parse_document(b.skip(1)) {
            Ok((d, n)) => Ok((SectionView::Body(d), 1 + n)),
            Err(e) => Err(WireError::Bson(e)),
        }
    } else if b[0] == 1u8 {
        if b.len() < 5 {
            Err(WireError::TooShort)
        } else {
            let size = read_u32(b, 1) as int;
            if size < 4 || size > b.len() - 1 {
                Err(WireError::BadSection)
            } else {
                let inner = b.subrange(5, 1 + size);
                match parse_cstring(inner) {
                    None => Err(WireError::BadString),
                    Some((id, n)) => {
                        if n < 1 || n > inner.len() {
                            Err(WireError::BadString)
                        } else {
                            match parse_documents(inner.skip(n)) {
                                Ok(docs) => Ok((SectionView::Sequence(id, docs), 1 + size)),
                                Err(e) => Err(WireError::Bson(e)),
                            }
                        }
                    },
                }
            }
        }
    } else {
        Err(WireError::BadSection)
    }
}

/// `acc` followed by what `r` holds, or the error of `r`.
pub open spec fn prepend_sections(
    acc: Seq<SectionView>,
    r: Result<Seq<SectionView>, WireError>,
) -> Result<Seq<SectionView>, WireError> {
    match r {
        Ok(t) => Ok(acc + t),
        Err(e) => Err(e),
    }
}

/// The sections that fill `b` from its first to its last byte.
pub open spec fn parse_sections(b: Seq<u8>) -> Result<Seq<SectionView>, WireError>
    decreases b.len(),
{
    if b.len() == 0 {
        Ok(Seq::empty())
    } else {
        match parse_section(b) {
            Err(e) => Err(e),
            Ok((s, n)) => {
                if n < 1 || n > b.len() {
                    Err(WireError::BadSection)
                } else {
                    prepend_sections(seq![s], parse_sections(b.skip(n)))
                }
            },
        }
    }
}

/// The message of sections that `f` holds.
pub open spec fn parse_op_msg(f: Seq<u8>) -> Result<OpMsgView, WireError> {
    match parse_header(f) {
        Err(e) => Err(e),
        Ok(h) => {
            if h.op_code != OpCode::Msg {
                Err(WireError::UnsupportedOpCode(h.op_code))
            } else if h.message_length > f.len() {
                Err(WireError::Incomplete)
            } else if h.message_length < 20 {
                Err(WireError::TooShort)
            } else if read_u32(f, 16) & 1 != 0 {
                Err(WireError::ChecksumNotSupported)
            } else {
                match parse_sections(f.subrange(20, h.message_length as int)) {
                    Ok(s) => Ok(OpMsgView { header: h, flags: read_u32(f, 16), sections: s }),
                    Err(e) => Err(e),
                }
            }
        },
    }
}

/// The legacy query that `f` holds.
pub open spec fn parse_op_query(f: Seq<u8>) -> Result<OpQueryView, WireError> {
    match parse_header(f) {
        Err(e) => Err(e),
        Ok(h) => {
            if h.op_code != OpCode::Query {
                Err(WireError::UnsupportedOpCode(h.op_code))
            } else if h.message_length > f.len() {
                Err(WireError::Incomplete)
            } else {
                let b = f.subrange(16, h.message_length as int);
                if b.len() < 4 {
                    Err(WireError::TooShort)
                } else {
                    match parse_cstring(b.skip(4)) {
                        None => Err(WireError::BadString),
                        Some((name, nn)) => {
                            if nn < 1 || b.len() < 12 + nn {
                                Err(WireError::TooShort)
                            } else {
                                match parse_document(b.skip(12 + nn)) {
                                    Err(e) => Err(WireError::Bson(e)),
                                    Ok((q, nq)) => {
                                        let rest = b.skip(12 + nn + nq);
                                        if nq < 0 || nq > b.len() - 12 - nn {
                                            Err(WireError::TooShort)
                                        } else if rest.len() == 0 {
                                            Ok(
                                                OpQueryView {
                                                    header: h,
                                                    flags: read_u32(b, 0),
                                                    full_collection_name: name,
                                                    number_to_skip: read_u32(b, 4 + nn),
                                                    number_to_return: read_u32(b, 8 + nn),
                                                    query: q,
                                                    return_fields: None,
                                                },
                                            )
                                        } else {
                                            match parse_document(rest) {
                                                Err(e) => Err(WireError::Bson(e)),
                                                Ok((sel, ns)) => {
                                                    if ns != rest.len() {
                                                        Err(WireError::TrailingBytes)
                                                    } else {
                                                        Ok(
                                                            OpQueryView {
                                                                header: h,
                                                                flags: read_u32(b, 0),
                                                                full_collection_name: name,
                                                                number_to_skip: read_u32(
                                                                    b,
                                                                    4 + nn,
                                                                ),
                                                                number_to_return: read_u32(
                                                                    b,
                                                                    8 + nn,
                                                                ),
                                                                query: q,
                                                                return_fields: Some(sel),
                                                            },
                                                        )
                                                    }
                                                },
                                            }
                                        }
                                    },
                                }
                            }
                        },
                    }
                }
            }
        },
    }
}

/// The request that `f` holds.
pub open spec fn parse_wire_message(f: Seq<u8>) -> Result<WireMessageView, WireError> {
    match parse_header(f) {
        Err(e) => Err(e),
        Ok(h) => {
            if h.op_code == OpCode::Query {
                match parse_op_query(f) {
                    Ok(q) => Ok(WireMessageView::Query(q)),
                    Err(e) => Err(e),
                }
            } else if h.op_code == OpCode::Msg {
                match parse_op_msg(f) {
                    Ok(m) => Ok(WireMessageView::Msg(m)),
                    Err(e) => Err(e),
                }
            } else {
                Err(WireError::UnsupportedOpCode(h.op_code))
            }
        },
    }
}

/// Documents read from bytes agree with what the model finds there.
pub open spec fn documents_match(
    r: Result<Vec<Document>, BsonError>,
    m: Result<Seq<DocView>, BsonError>,
) -> bool {
    match (r, m) {
        (Ok(d), Ok(dv)) => docs_view(d@) == dv,
        (Err(e), Err(ev)) => e == ev,
        _ => false,
    }
}

/// A section read from bytes agrees with what the model finds there.
pub open spec fn section_matches(
    r: Result<(OpMsgSection, usize), WireError>,
    m: Result<(SectionView, int), WireError>,
) -> bool {
    match (r, m) {
        (Ok((s, n)), Ok((sv, nv))) => s@ == sv && n == nv,
        (Err(e), Err(ev)) => e == ev,
        _ => false,
    }
}

/// Sections read from bytes agree with what the model finds there.
pub open spec fn sections_match(
    r: Result<Vec<OpMsgSection>, WireError>,
    m: Result<Seq<SectionView>, WireError>,
) -> bool {
    match (r, m) {
        (Ok(s), Ok(sv)) => sections_view(s@) == sv,
        (Err(e), Err(ev)) => e == ev,
        _ => false,
    }
}

/// A message read from bytes agrees with what the model finds there.
pub open spec fn op_msg_matches(r: Result<OpMsgMessage, WireError>, m: Result<OpMsgView, WireError>) -> bool {
    match (r, m) {
        (Ok(x), Ok(xv)) => x@ == xv,
        (Err(e), Err(ev)) => e == ev,
        _ => false,
    }
}

/// A query read from bytes agrees with what the model finds there.
pub open spec fn op_query_matches(
    r: Result<OpQueryMessage, WireError>,
    m: Result<OpQueryView, WireError>,
) -> bool {
    match (r, m) {
        (Ok(x), Ok(xv)) => x@ == xv,
        (Err(e), Err(ev)) => e == ev,
        _ => false,
    }
}

/// A request read from bytes agrees with what the model finds there.
pub open spec fn wire_message_matches(
    r: Result<WireMessage, WireError>,
    m: Result<WireMessageView, WireError>,
) -> bool {
    match (r, m) {
        (Ok(x), Ok(xv)) => x@ == xv,
        (Err(e), Err(ev)) => e == ev,
        _ => false,
    }
}

proof fn lemma_documents_step(b: Seq<u8>, off: int, acc: Seq<DocView>, d: DocView, n: int)
    requires
        0 <= off < b.len(),
        parse_document(b.skip(off)) == Ok::<(DocView, int), BsonError>((d, n)),
        1 <= n <= b.len() - off,
    ensures
        prepend_documents(acc, parse_documents(b.skip(off))) == prepend_documents(
            acc.push(d),
            parse_documents(b.skip(off + n)),
        ),
{
    let cur = b.skip(off);
    assert(cur.skip(n) =~= b.skip(off + n));
    let tail = parse_documents(b.skip(off + n));
    assert(parse_documents(cur) == prepend_documents(seq![d], tail));
    match tail {
        Ok(t) => {
            assert(acc + (seq![d] + t) =~= acc.push(d) + t);
        },
        Err(_) => {},
    }
}

proof fn lemma_sections_step(b: Seq<u8>, off: int, acc: Seq<SectionView>, s: SectionView, n: int)
    requires
        0 <= off < b.len(),
        parse_section(b.skip(off)) == Ok::<(SectionView, int), WireError>((s, n)),
        1 <= n <= b.len() - off,
    ensures
        prepend_sections(acc, parse_sections(b.skip(off))) == prepend_sections(
            acc.push(s),
            parse_sections(b.skip(off + n)),
        ),
{
    let cur = b.skip(off);
    assert(cur.skip(n) =~= b.skip(off + n));
    let tail = parse_sections(b.skip(off + n));
    assert(parse_sections(cur) == prepend_sections(seq![s], tail));
    match tail {
        Ok(t) => {
            assert(acc + (seq![s] + t) =~= acc.push(s) + t);
        },
        Err(_) => {},
    }
}

/// Reads the documents that fill `b`.
pub fn decode_documents(b: &[u8]) -> (r: Result<Vec<Document>, BsonError>)
    ensures
        documents_match(r, parse_documents(b@)),
{
    let mut out: Vec<Document> = Vec::new();
    let mut off: usize = 0;
    proof {
        assert(b@.skip(0) =~= b@);
        match parse_documents(b@) {
            Ok(t) => {
                assert(docs_view(out@) + t =~= t);
            },
            Err(_) => {},
        }
    }
    while off < b.len()
        invariant
            off <= b.len(),
            parse_documents(b@) == prepend_documents(
                docs_view(out@),
                parse_documents(b@.skip(off as int)),
            ),
        decreases b.len() - off,
    {
        let cur = slice_subrange(b, off, b.len());
        assert(cur@ =~= b@.skip(off as int));
        match decode_document(cur) {
            Err(e) => {
                return Err(e);
            },
            Ok((d, n)) => {
                proof {
                    lemma_documents_step(b@, off as int, docs_view(out@), d@, n as int);
                }
                let ghost before = docs_view(out@);
                out.push(d);
                assert(docs_view(out@) =~= before.push(d@));
                off = off + n;
            },
        }
    }
    proof {
        assert(b@.skip(off as int) =~= Seq::<u8>::empty());
        assert(docs_view(out@) + Seq::<DocView>::empty() =~= docs_view(out@));
    }
    Ok(out)
}

/// Reads the section at the start of `b`.
pub fn decode_section(b: &[u8]) -> (r: Result<(OpMsgSection, usize), WireError>)
    ensures
        section_matches(r, parse_section(b@)),
        r matches Ok((_, n)) ==> 1 <= n <= b@.len(),
{
    if b.len() == 0 {
        return Err(WireError::TooShort);
    }
    let kind = b[0];
    if kind == 0 {
        let rest = slice_subrange(b, 1, b.len());
        assert(rest@ =~= b@.skip(1));
        match decode_document(rest) {
            Ok((document, n)) => Ok((OpMsgSection::Body { document }, 1 + n)),
            Err(e) => Err(WireError::Bson(e)),
        }
    } else if kind == 1 {
        if b.len() < 5 {
            return Err(WireError::TooShort);
        }
        let size = read_u32_at(b, 1) as usize;
        if size < 4 || size > b.len() - 1 {
            return Err(WireError::BadSection);
        }
        let inner = slice_subrange(b, 5, 1 + size);
        match read_cstring(inner) {
            None => Err(WireError::BadString),
            Some((identifier, n)) => {
                let rest = slice_subrange(inner, n, inner.len());
                assert(rest@ =~= inner@.skip(n as int));
                match decode_documents(rest) {
                    Ok(documents) => Ok(
                        (OpMsgSection::DocumentSequence { identifier, documents }, 1 + size),
                    ),
                    Err(e) => Err(WireError::Bson(e)),
                }
            },
        }
    } else {
        Err(WireError::BadSection)
    }
}

/// Reads the sections that fill `b`.
pub fn decode_sections(b: &[u8]) -> (r: Result<Vec<OpMsgSection>, WireError>)
    ensures
        sections_match(r, parse_sections(b@)),
{
    let mut out: Vec<OpMsgSection> = Vec::new();
    let mut off: usize = 0;
    proof {
        assert(b@.skip(0) =~= b@);
        match parse_sections(b@) {
            Ok(t) => {
                assert(sections_view(out@) + t =~= t);
            },
            Err(_) => {},
        }
    }
    while off < b.len()
        invariant
            off <= b.len(),
            parse_sections(b@) == prepend_sections(
                sections_view(out@),
                parse_sections(b@.skip(off as int)),
            ),
        decreases b.len() - off,
    {
        let cur = slice_subrange(b, off, b.len());
        assert(cur@ =~= b@.skip(off as int));
        match decode_section(cur) {
            Err(e) => {
                return Err(e);
            },
            Ok((s, n)) => {
                proof {
                    lemma_sections_step(b@, off as int, sections_view(out@), s@, n as int);
                }
                let ghost before = sections_view(out@);
                out.push(s);
                assert(sections_view(out@) =~= before.push(s@));
                off = off + n;
            },
        }
    }
    proof {
        assert(b@.skip(off as int) =~= Seq::<u8>::empty());
        assert(sections_view(out@) + Seq::<SectionView>::empty() =~= sections_view(out@));
    }
    Ok(out)
}

impl OpMsgMessage {
    /// Reads a message of sections. Every section is read, up to the
    /// declared length of the message and not beyond it; a message that
    /// announces a checksum is refused.
    pub fn parse(data: &[u8]) -> (r: Result<Self, WireError>)
        ensures
            op_msg_matches(r, parse_op_msg(data@)),
    {
        let header = match MessageHeader::parse(data) {
            Ok(h) => h,
            Err(e) => {
                return Err(e);
            },
        };
        match header.op_code {
            OpCode::Msg => {},
            _ => {
                return Err(WireError::UnsupportedOpCode(header.op_code));
            },
        }
        let len = header.message_length as usize;
        if len > data.len() {
            return Err(WireError::Incomplete);
        }
        if len < 20 {
            return Err(WireError::TooShort);
        }
        let flags = read_u32_at(data, 16);
        if flags & 1 != 0 {
            return Err(WireError::ChecksumNotSupported);
        }
        match decode_sections(slice_subrange(data, 20, len)) {
            Ok(sections) => Ok(OpMsgMessage { header, flags, sections }),
            Err(e) => Err(e),
        }
    }
}

impl OpQueryMessage {
    /// Reads a legacy query.
    pub fn parse(data: &[u8]) -> (r: Result<Self, WireError>)
        ensures
            op_query_matches(r, parse_op_query(data@)),
    {
        let header = match MessageHeader::parse(data) {
            Ok(h) => h,
            Err(e) => {
                return Err(e);
            },
        };
        match header.op_code {
            OpCode::Query => {},
            _ => {
                return Err(WireError::UnsupportedOpCode(header.op_code));
            },
        }
        let len = header.message_length as usize;
        if len > data.len() {
            return Err(WireError::Incomplete);
        }
        let b = slice_subrange(data, 16, len);
        if b.len() < 4 {
            return Err(WireError::TooShort);
        }
        let flags = read_u32_at(b, 0);
        let after_flags = slice_subrange(b, 4, b.len());
        assert(after_flags@ =~= b@.skip(4));
        let (full_collection_name, nn) = match read_cstring(after_flags) {
            None => {
                return Err(WireError::BadString);
            },
            Some(x) => x,
        };
        if b.len() - 4 - nn < 8 {
            return Err(WireError::TooShort);
        }
        let number_to_skip = read_u32_at(b, 4 + nn);
        let number_to_return = read_u32_at(b, 8 + nn);
        let qb = slice_subrange(b, 12 + nn, b.len());
        assert(qb@ =~= b@.skip(12 + nn));
        let (query, nq) = match decode_document(qb) {
            Err(e) => {
                return Err(WireError::Bson(e));
            },
            Ok(x) => x,
        };
        let rest = slice_subrange(b, 12 + nn + nq, b.len());
        assert(rest@ =~= b@.skip(12 + nn + nq));
        if rest.len() == 0 {
            return Ok(
                OpQueryMessage {
                    header,
                    flags,
                    full_collection_name,
                    number_to_skip,
                    number_to_return,
                    query,
                    return_fields: None,
                },
            );
        }
        match decode_document(rest) {
            Err(e) => Err(WireError::Bson(e)),
            Ok((sel, ns)) => {
                if ns != rest.len() {
                    Err(WireError::TrailingBytes)
                } else {
                    Ok(
                        OpQueryMessage {
                            header,
                            flags,
                            full_collection_name,
                            number_to_skip,
                            number_to_return,
                            query,
                            return_fields: Some(sel),
                        },
                    )
                }
            },
        }
    }
}

/// Reads requests and writes responses.
pub struct WireProtocolHandler;

impl WireProtocolHandler {
    /// Reads one request. Legacy queries and messages of sections are
    /// served; every other opcode gives `UnsupportedOpCode`.
    pub fn parse_message(data: &[u8]) -> (r: Result<WireMessage, WireError>)
        ensures
            wire_message_matches(r, parse_wire_message(data@)),
    {
        let header = match MessageHeader::parse(data) {
            Ok(h) => h,
            Err(e) => {
                return Err(e);
            },
        };
        match header.op_code {
            OpCode::Query => match OpQueryMessage::parse(data) {
                Ok(q) => Ok(WireMessage::Query(q)),
                Err(e) => Err(e),
            },
            OpCode::Msg => match OpMsgMessage::parse(data) {
                Ok(m) => Ok(WireMessage::Msg(m)),
                Err(e) => Err(e),
            },
            _ => Err(WireError::UnsupportedOpCode(header.op_code)),
        }
    }

    /// Writes the reply to a legacy query: one document, no cursor.
    /// `request_id` is the sender's own id for the reply, `response_to` the
    /// id of the request that it answers.
    pub fn build_reply_message(request_id: u32, response_to: u32, document: &Document) -> (r:
        Result<Vec<u8>, WireError>)
        ensures
            match r {
                Ok(bytes) => legal_document(document@) && bytes@ == reply_frame(
                    request_id,
                    response_to,
                    encode_document(document@),
                ),
                Err(e) => !legal_document(document@) && e == WireError::Bson(
                    crate::codec::encode_fault(document@),
                ),
            },
    {
        proof {
            lemma_auto_spec_u32_to_from_le_bytes();
            lemma_auto_spec_u64_to_from_le_bytes();
        }
        let body = match encode(document) {
            Ok(b) => b,
            Err(e) => {
                return Err(WireError::Bson(e));
            },
        };
        let header = MessageHeader {
            message_length: (36 + body.len()) as u32,
            request_id,
            response_to,
            op_code: OpCode::Reply,
        };
        let mut out = header.to_bytes();
        let flags = u32_to_le_bytes(0);
        push_all(&mut out, flags.as_slice());
        let cursor = u64_to_le_bytes(0);
        push_all(&mut out, cursor.as_slice());
        let starting = u32_to_le_bytes(0);
        push_all(&mut out, starting.as_slice());
        let returned = u32_to_le_bytes(1);
        push_all(&mut out, returned.as_slice());
        push_all(&mut out, body.as_slice());
        Ok(out)
    }

    /// Writes a response message: no flags, one body section.
    /// `request_id` is the sender's own id for the response, `response_to`
    /// the id of the request that it answers.
    pub fn build_msg_response(request_id: u32, response_to: u32, document: &Document) -> (r:
        Result<Vec<u8>, WireError>)
        ensures
            match r {
                Ok(bytes) => legal_document(document@) && bytes@ == msg_frame(
                    request_id,
                    response_to,
                    encode_document(document@),
                ),
                Err(e) => !legal_document(document@) && e == WireError::Bson(
                    crate::codec::encode_fault(document@),
                ),
            },
    {
        proof {
            lemma_auto_spec_u32_to_from_le_bytes();
        }
        let body = match encode(document) {
            Ok(b) => b,
            Err(e) => {
                return Err(WireError::Bson(e));
            },
        };
        let header = MessageHeader {
            message_length: (21 + body.len()) as u32,
            request_id,
            response_to,
            op_code: OpCode::Msg,
        };
        let mut out = header.to_bytes();
        let flags = u32_to_le_bytes(0);
        push_all(&mut out, flags.as_slice());
        out.push(0u8);
        push_all(&mut out, body.as_slice());
        Ok(out)
    }

    /// Writes the response to `request`: a reply where the request is a
    /// legacy query, a message where it is a message. The response names
    /// the request's id as the one it answers.
    pub fn build_response(request: &WireMessage, request_id: u32, document: &Document) -> (r:
        Result<Vec<u8>, WireError>)
        ensures
            match r {
                Ok(bytes) => legal_document(document@) && bytes@ == response_frame(
                    request@,
                    request_id,
                    encode_document(document@),
                ),
                Err(e) => !legal_document(document@) && e == WireError::Bson(
                    crate::codec::encode_fault(document@),
                ),
            },
    {
        match request {
            WireMessage::Query(q) => Self::build_reply_message(
                request_id,
                q.header.request_id,
                document,
            ),
            WireMessage::Msg(m) => Self::build_msg_response(
                request_id,
                m.header.request_id,
                document,
            ),
        }
    }
}

/// The id that the sender gave a request.
pub open spec fn request_id_of(m: WireMessageView) -> u32 {
    match m {
        WireMessageView::Query(q) => q.header.request_id,
        WireMessageView::Msg(x) => x.header.request_id,
    }
}

/// The bytes of the response to a request.
pub open spec fn response_frame(request: WireMessageView, request_id: u32, body: Seq<u8>) -> Seq<
    u8,
> {
    match request {
        WireMessageView::Query(q) => reply_frame(request_id, q.header.request_id, body),
        WireMessageView::Msg(m) => msg_frame(request_id, m.header.request_id, body),
    }
}

/// Response pairing: the response to a request carries, as the id it
/// answers, the id that the sender gave the request; a legacy query is
/// answered by a reply and a message by a message.
pub proof fn lemma_response_pairing(request: WireMessageView, request_id: u32, body: Seq<u8>)
    requires
        body.len() <= MAX_DOCUMENT_SIZE,
    ensures
        parse_header(response_frame(request, request_id, body)) matches Ok(h) && h.response_to
            == request_id_of(request) && h.request_id == request_id && h.message_length
            == response_frame(request, request_id, body).len() && (h.op_code == OpCode::Reply
            <==> request is Query) && (h.op_code == OpCode::Msg <==> request is Msg),
{
    match request {
        WireMessageView::Query(q) => {
            lemma_reply_frame_header(request_id, q.header.request_id, body);
        },
        WireMessageView::Msg(m) => {
            lemma_msg_frame_header(request_id, m.header.request_id, body);
        },
    }
}

/// The value that an unsigned 32-bit number takes in a document: a 32-bit
/// integer where it fits, a 64-bit integer otherwise.
pub open spec fn u32_value(x: u32) -> BsonView {
    if x <= i32::MAX {
        BsonView::Int32(x as i32)
    } else {
        BsonView::Int64(x as i64)
    }
}

/// The document of the first body section, or the empty document.
pub open spec fn first_body(s: Seq<SectionView>) -> DocView
    decreases s.len(),
{
    if s.len() == 0 {
        Seq::empty()
    } else {
        match s[0] {
            SectionView::Body(d) => d,
            _ => first_body(s.drop_first()),
        }
    }
}

/// The documents of a sequence as array items.
pub open spec fn documents_as_items(docs: Seq<DocView>) -> Seq<BsonView> {
    Seq::new(docs.len(), |i: int| BsonView::Document(docs[i]))
}

/// `doc` with every document sequence of `s` set, in order, as an array
/// under the sequence's name.
pub open spec fn merge_sequences(doc: DocView, s: Seq<SectionView>) -> DocView
    decreases s.len(),
{
    if s.len() == 0 {
        doc
    } else {
        match s[0] {
            SectionView::Sequence(id, docs) => merge_sequences(
                with_entry(doc, id, BsonView::Array(documents_as_items(docs))),
                s.drop_first(),
            ),
            _ => merge_sequences(doc, s.drop_first()),
        }
    }
}

/// The command that a request carries.
pub open spec fn command_document_of(m: WireMessageView) -> DocView {
    match m {
        WireMessageView::Query(q) => with_entry(
            with_entry(
                with_entry(
                    q.query,
                    "fullCollectionName"@,
                    BsonView::String(q.full_collection_name),
                ),
                "numberToSkip"@,
                u32_value(q.number_to_skip),
            ),
            "numberToReturn"@,
            u32_value(q.number_to_return),
        ),
        WireMessageView::Msg(x) => merge_sequences(first_body(x.sections), x.sections),
    }
}

/// An unsigned 32-bit number as a document value.
pub fn u32_to_bson(x: u32) -> (r: Bson)
    ensures
        r@ == u32_value(x),
{
    if x <= 0x7fff_ffff {
        Bson::Int32(x as i32)
    } else {
        Bson::Int64(x as i64)
    }
}

/// Copies of documents as array items.
pub fn documents_to_items(docs: &Vec<Document>) -> (r: Vec<Bson>)
    ensures
        values_view(r@) == documents_as_items(docs_view(docs@)),
{
    let mut out: Vec<Bson> = Vec::new();
    let mut i: usize = 0;
    while i < docs.len()
        invariant
            i <= docs.len(),
            out.len() == i,
            forall|j: int| 0 <= j < i ==> out[j]@ == BsonView::Document(docs[j]@),
        decreases docs.len() - i,
    {
        let c = docs[i].clone_document();
        proof {
            lemma_view_document(c);
        }
        out.push(Bson::Document(c));
        i = i + 1;
    }
    assert(values_view(out@) =~= documents_as_items(docs_view(docs@)));
    out
}

impl WireMessage {
    /// The command that the request carries.
    ///
    /// For a legacy query: the query document with the collection name and
    /// the two counts of the message set under `fullCollectionName`,
    /// `numberToSkip` and `numberToReturn`. For a message: the document of
    /// its first body section, with each document sequence set as an array
    /// under its name; the empty document where there is no body section.
    pub fn get_command_document(&self) -> (r: Document)
        ensures
            r@ == command_document_of(self@),
    {
        match self {
            WireMessage::Query(q) => {
                let mut doc = q.query.clone_document();
                doc.insert("fullCollectionName", Bson::String(q.full_collection_name.clone()));
                doc.insert("numberToSkip", u32_to_bson(q.number_to_skip));
                doc.insert("numberToReturn", u32_to_bson(q.number_to_return));
                doc
            },
            WireMessage::Msg(m) => {
                let ghost sv = sections_view(m.sections@);
                let mut doc = Document::new();
                let mut i: usize = 0;
                let mut found = false;
                proof {
                    assert(sv.skip(0) =~= sv);
                }
                while i < m.sections.len() && !found
                    invariant
                        i <= m.sections.len(),
                        sv == sections_view(m.sections@),
                        found ==> doc@ == first_body(sv),
                        !found ==> doc@ == Seq::<(Seq<char>, BsonView)>::empty() && first_body(sv)
                            == first_body(sv.skip(i as int)),
                    decreases m.sections.len() - i + (if found { 0int } else { 1int }),
                {
                    proof {
                        assert(sv.skip(i as int)[0] == sv[i as int]);
                        assert(sv.skip(i as int).drop_first() =~= sv.skip(i + 1));
                    }
                    match &m.sections[i] {
                        OpMsgSection::Body { document } => {
                            doc = document.clone_document();
                            found = true;
                        },
                        _ => {
                            i = i + 1;
                        },
                    }
                }
                proof {
                    if !found {
                        assert(sv.skip(i as int) =~= Seq::<SectionView>::empty());
                    }
                    assert(sv.skip(0) =~= sv);
                }
                let mut j: usize = 0;
                while j < m.sections.len()
                    invariant
                        j <= m.sections.len(),
                        sv == sections_view(m.sections@),
                        merge_sequences(doc@, sv.skip(j as int)) == merge_sequences(
                            first_body(sv),
                            sv,
                        ),
                    decreases m.sections.len() - j,
                {
                    proof {
                        assert(sv.skip(j as int)[0] == sv[j as int]);
                        assert(sv.skip(j as int).drop_first() =~= sv.skip(j + 1));
                    }
                    match &m.sections[j] {
                        OpMsgSection::DocumentSequence { identifier, documents } => {
                            let items = documents_to_items(documents);
                            proof {
                                lemma_view_array(items);
                            }
                            doc.insert(identifier.as_str(), Bson::Array(items));
                        },
                        _ => {},
                    }
                    j = j + 1;
                }
                proof {
                    assert(sv.skip(j as int) =~= Seq::<SectionView>::empty());
                }
                doc
            },
        }
    }

    /// The id that the sender gave the request.
    pub fn get_request_id(&self) -> (r: u32)
        ensures
            r == request_id_of(self@),
    {
        match self {
            WireMessage::Query(op_query) => op_query.header.request_id,
            WireMessage::Msg(op_msg) => op_msg.header.request_id,
        }
    }
}

} // verus!
