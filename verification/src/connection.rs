//! The serving loop of one connection, as a state machine.
//!
//! The caller reads bytes from the socket and hands them in; the
//! connection cuts them into messages, serves each message in the order in
//! which it arrived, and hands back the bytes to write. The caller asks
//! the rate limiter before each message and passes its answer on.

use crate::bson::{Bson, BsonView, DocView, Document};
use crate::circuit_breaker::{
    after_admit, after_outcome, allows, retry_after, CircuitBreaker, CircuitOpen,
};
use crate::codec::{encode_document, legal_document};
use crate::command_processor::{served, CommandProcessor};
use crate::mongodb_commands::{
    error_response, MongoDBCommandRegistry, CODE_CIRCUIT_OPEN, CODE_INTERNAL_ERROR,
    CODE_RATE_LIMITED, OK_ZERO,
};
use crate::rate_limiter::RateLimitResult;
use crate::wire_protocol::{
    command_document_of, frame_status, frame_status_of, msg_frame, parse_header,
    parse_wire_message, reply_frame, response_frame, FrameStatus, MessageHeader, OpCode,
    WireError, WireMessage, WireMessageView, WireProtocolHandler,
};
use vstd::prelude::*;

verus! {

/// One connection.
#[derive(Debug)]
pub struct Connection {
    pub processor: CommandProcessor,
    /// Bytes that were read and do not make a whole message yet.
    pub buffer: Vec<u8>,
    /// The id that the next response gets as its own.
    pub next_request_id: u32,
    /// Whether the connection has to be closed.
    pub closed: bool,
}

/// What the caller has to do after a message.
#[derive(Debug, PartialEq)]
pub enum FrameOutcome {
    /// Write these bytes to the socket.
    Reply(Vec<u8>),
    /// Close the connection without a reply: the framing is lost.
    Close,
}

/// The id after `id` in the counter of a connection: the next number, and
/// one after the largest.
pub open spec fn next_id(id: u32) -> u32 {
    if id == u32::MAX {
        1
    } else {
        (id + 1) as u32
    }
}

/// The response to a request beyond the rate limit.
pub open spec fn rate_limited_response(retry_after_seconds: u64) -> DocView {
    seq![
        ("ok"@, BsonView::Double(OK_ZERO)),
        ("errmsg"@, BsonView::String("rate limit exceeded"@)),
        ("code"@, BsonView::Int32(CODE_RATE_LIMITED)),
        ("codeName"@, BsonView::String("RateLimited"@)),
        ("retryAfterSeconds"@, BsonView::Int64(retry_after_seconds as i64)),
    ]
}

/// The response to a request that the circuit breaker refused.
pub open spec fn circuit_open_response(retry_after_ms: u64) -> DocView {
    seq![
        ("ok"@, BsonView::Double(OK_ZERO)),
        ("errmsg"@, BsonView::String("circuit breaker is open"@)),
        ("code"@, BsonView::Int32(CODE_CIRCUIT_OPEN)),
        ("codeName"@, BsonView::String("CircuitOpen"@)),
        ("retryAfterMs"@, BsonView::Int64(retry_after_ms as i64)),
    ]
}

/// Whether a response reports a fault inside the server.
pub open spec fn is_internal_error(r: DocView) -> bool {
    crate::bson::lookup(r, "code"@) == Some(BsonView::Int32(CODE_INTERNAL_ERROR))
}

/// The bytes that answer a request with a document; the bytes of the
/// "response too large" error where the document has no binary form.
pub open spec fn reply_bytes(m: WireMessageView, id: u32, reply: DocView) -> Seq<u8> {
    if legal_document(reply) {
        response_frame(m, id, encode_document(reply))
    } else {
        response_frame(
            m,
            id,
            encode_document(too_large_response()),
        )
    }
}

/// The response that is sent where a response has no binary form.
pub open spec fn too_large_response() -> DocView {
    error_response(CODE_INTERNAL_ERROR, "InternalError"@, "response too large"@)
}

/// Whether an outcome carries the bytes that answer a request with a
/// document.
pub open spec fn replied(r: FrameOutcome, m: WireMessageView, id: u32, reply: DocView) -> bool {
    r matches FrameOutcome::Reply(bytes) && bytes@ == reply_bytes(m, id, reply)
}

/// The two responses that stand in where a request or a response has no
/// binary form have one themselves.
pub proof fn lemma_fixed_responses_are_legal()
    ensures
        legal_document(too_large_response()),
        legal_document(malformed_response()),
{
    reveal_strlit("InternalError");
    reveal_strlit("response too large");
    reveal_strlit("InvalidBSON");
    reveal_strlit("malformed BSON in request");
    crate::response_laws::lemma_plain_name("InternalError"@);
    crate::response_laws::lemma_plain_name("response too large"@);
    crate::response_laws::lemma_plain_name("InvalidBSON"@);
    crate::response_laws::lemma_plain_name("malformed BSON in request"@);
    crate::response_laws::lemma_error_response_is_legal(
        CODE_INTERNAL_ERROR,
        "InternalError"@,
        "response too large"@,
    );
    crate::response_laws::lemma_error_response_is_legal(
        crate::mongodb_commands::CODE_INVALID_BSON,
        "InvalidBSON"@,
        "malformed BSON in request"@,
    );
}

/// The response to a request whose body is no well-formed document.
pub open spec fn malformed_response() -> DocView {
    error_response(
        crate::mongodb_commands::CODE_INVALID_BSON,
        "InvalidBSON"@,
        "malformed BSON in request"@,
    )
}

/// The bytes that answer the request behind a header with a body: a reply
/// to a legacy query, a message to anything else.
pub open spec fn answer_frame(h: MessageHeader, id: u32, body: Seq<u8>) -> Seq<u8> {
    if h.op_code == OpCode::Query {
        reply_frame(id, h.request_id, body)
    } else {
        msg_frame(id, h.request_id, body)
    }
}

/// Whether an outcome answers the request behind a header with the error
/// for a malformed body.
pub open spec fn refused_as_malformed(r: FrameOutcome, h: MessageHeader, id: u32) -> bool {
    r matches FrameOutcome::Reply(bytes) && bytes@ == answer_frame(
        h,
        id,
        encode_document(malformed_response()),
    )
}

impl Connection {
    /// The connection is consistent: so is its processor, and its counter
    /// of responses is not zero.
    pub open spec fn wf(&self) -> bool {
        self.processor.wf() && self.next_request_id >= 1
    }

    /// A connection on which nothing was read yet. Its first response gets
    /// the id one.
    pub fn new(processor: CommandProcessor) -> (r: Self)
        requires
            processor.wf(),
        ensures
            r.wf(),
            r.processor == processor,
            r.buffer@.len() == 0,
            r.next_request_id == 1,
            !r.closed,
    {
        Connection { processor, buffer: Vec::new(), next_request_id: 1, closed: false }
    }

    /// Takes bytes that were read from the socket. They are kept until
    /// they make a whole message.
    pub fn feed(&mut self, bytes: &[u8])
        ensures
            final(self).buffer@ == old(self).buffer@ + bytes@,
            final(self).processor == old(self).processor,
            final(self).next_request_id == old(self).next_request_id,
            final(self).closed == old(self).closed,
    {
        crate::codec::push_all(&mut self.buffer, bytes);
    }

    /// Takes the next whole message out of the bytes that were read. A
    /// message that is not whole yet stays where it is. A length that no
    /// message can have closes the connection.
    pub fn take_frame(&mut self) -> (r: Option<Vec<u8>>)
        ensures
            final(self).processor == old(self).processor,
            final(self).next_request_id == old(self).next_request_id,
            match frame_status_of(old(self).buffer@) {
                FrameStatus::Ready(n) => r matches Some(f) && f@ == old(self).buffer@.take(
                    n as int,
                ) && final(self).buffer@ == old(self).buffer@.skip(n as int) && final(self).closed
                    == old(self).closed,
                FrameStatus::NeedMore => r.is_none() && final(self).buffer@ == old(self).buffer@
                    && final(self).closed == old(self).closed,
                FrameStatus::Invalid => r.is_none() && final(self).buffer@ == old(self).buffer@
                    && final(self).closed,
            },
    {
        match frame_status(self.buffer.as_slice()) {
            FrameStatus::Ready(n) => {
                let mut frame = self.buffer.split_off(n);
                core::mem::swap(&mut self.buffer, &mut frame);
                assert(frame@ =~= old(self).buffer@.take(n as int));
                assert(self.buffer@ =~= old(self).buffer@.skip(n as int));
                Some(frame)
            },
            FrameStatus::NeedMore => None,
            FrameStatus::Invalid => {
                self.closed = true;
                None
            },
        }
    }

    /// The id for the next response; the counter moves on.
    pub fn allocate_request_id(&mut self) -> (id: u32)
        requires
            old(self).wf(),
        ensures
            final(self).wf(),
            id == old(self).next_request_id,
            final(self).next_request_id == next_id(id),
            final(self).processor == old(self).processor,
            final(self).buffer == old(self).buffer,
            final(self).closed == old(self).closed,
    {
        let id = self.next_request_id;
        self.next_request_id = if id == u32::MAX {
            1
        } else {
            id + 1
        };
        id
    }

    /// Serves one message.
    ///
    /// A message whose framing is intact and whose body is no well-formed
    /// document is answered with the error "invalid BSON". Any other
    /// message that cannot be read closes the connection, without a
    /// reply. A request that the rate limiter refused is answered with the
    /// error "rate limited", and one that the circuit breaker refuses with
    /// the error "circuit open"; neither reaches the commands. Every other
    /// request is served, and the breaker is told whether the response
    /// reports a fault inside the server. Every reply names the id of the
    /// request as the one it answers, and carries the next id of the
    /// connection's counter as its own.
    pub fn handle_frame(
        &mut self,
        frame: &[u8],
        admitted: RateLimitResult,
        breaker: &mut CircuitBreaker,
        now: u64,
    ) -> (r: FrameOutcome)
        requires
            old(self).wf(),
        ensures
            final(self).wf(),
            final(self).buffer == old(self).buffer,
            final(breaker).name == old(breaker).name,
            final(breaker).config == old(breaker).config,
            match parse_wire_message(frame@) {
                Err(WireError::Bson(_)) => {
                    &&& parse_header(frame@) matches Ok(h) && refused_as_malformed(
                        r,
                        h,
                        old(self).next_request_id,
                    )
                    &&& final(self).closed == old(self).closed
                    &&& final(self).next_request_id == next_id(old(self).next_request_id)
                    &&& final(self).processor == old(self).processor
                    &&& *final(breaker) == *old(breaker)
                },
                Err(_) => r == FrameOutcome::Close && final(self).closed && final(self).processor
                    == old(self).processor && final(self).next_request_id == old(
                    self,
                ).next_request_id && *final(breaker) == *old(breaker),
                Ok(m) => {
                    let id = old(self).next_request_id;
                    &&& final(self).closed == old(self).closed
                    &&& final(self).next_request_id == next_id(id)
                    &&& match admitted {
                        RateLimitResult::RateLimited { retry_after_seconds, .. } => {
                            &&& replied(r, m, id, rate_limited_response(retry_after_seconds))
                            &&& final(self).processor == old(self).processor
                            &&& *final(breaker) == *old(breaker)
                        },
                        RateLimitResult::Allowed => if !allows(old(breaker).state, now) {
                            &&& replied(
                                r,
                                m,
                                id,
                                circuit_open_response(
                                    retry_after(
                                        old(breaker).config,
                                        old(breaker).state,
                                        now,
                                    ).unwrap(),
                                ),
                            )
                            &&& final(self).processor == old(self).processor
                            &&& *final(breaker) == *old(breaker)
                        } else {
                            exists|reply: DocView|
                                {
                                    &&& #[trigger] served(
                                        old(self).processor,
                                        final(self).processor,
                                        command_document_of(m),
                                        now,
                                        reply,
                                    )
                                    &&& replied(r, m, id, reply)
                                    &&& final(breaker).state == after_outcome(
                                        old(breaker).config,
                                        after_admit(old(breaker).state, now),
                                        !is_internal_error(reply),
                                        now,
                                    )
                                }
                        },
                    }
                },
            },
    {
        let message = match WireProtocolHandler::parse_message(frame) {
            Ok(m) => m,
            Err(WireError::Bson(_)) => {
                let header = match MessageHeader::parse(frame) {
                    Ok(h) => h,
                    Err(_) => {
                        proof {
                            assert(false);
                        }
                        self.closed = true;
                        return FrameOutcome::Close;
                    },
                };
                let id = self.allocate_request_id();
                let reply = MongoDBCommandRegistry::build_error_response(
                    crate::mongodb_commands::CODE_INVALID_BSON,
                    "InvalidBSON",
                    "malformed BSON in request",
                );
                let built = match header.op_code {
                    OpCode::Query => WireProtocolHandler::build_reply_message(
                        id,
                        header.request_id,
                        &reply,
                    ),
                    _ => WireProtocolHandler::build_msg_response(id, header.request_id, &reply),
                };
                proof {
                    lemma_fixed_responses_are_legal();
                }
                return match built {
                    Ok(bytes) => FrameOutcome::Reply(bytes),
                    Err(_) => FrameOutcome::Close,
                };
            },
            Err(_) => {
                self.closed = true;
                return FrameOutcome::Close;
            },
        };
        let id = self.allocate_request_id();
        match admitted {
            RateLimitResult::RateLimited { retry_after_seconds, .. } => {
                let reply = Self::build_rate_limited(retry_after_seconds);
                return Self::write_reply(&message, id, &reply);
            },
            RateLimitResult::Allowed => {},
        }
        match breaker.begin_call(now) {
            Err(open) => {
                let reply = Self::build_circuit_open(open.retry_after_ms);
                Self::write_reply(&message, id, &reply)
            },
            Ok(()) => {
                let command = message.get_command_document();
                let reply = self.processor.process_command(&command, now);
                let failed = match reply.get("code") {
                    Some(Bson::Int32(c)) => *c == CODE_INTERNAL_ERROR,
                    _ => false,
                };
                breaker.update_state(!failed, now);
                Self::write_reply(&message, id, &reply)
            },
        }
    }

    /// The bytes that answer a request with a document.
    pub fn write_reply(message: &WireMessage, id: u32, reply: &Document) -> (r: FrameOutcome)
        ensures
            replied(r, message@, id, reply@),
    {
        match WireProtocolHandler::build_response(message, id, reply) {
            Ok(bytes) => FrameOutcome::Reply(bytes),
            Err(_) => {
                let fallback = MongoDBCommandRegistry::build_error_response(
                    CODE_INTERNAL_ERROR,
                    "InternalError",
                    "response too large",
                );
                proof {
                    lemma_fixed_responses_are_legal();
                }
                match WireProtocolHandler::build_response(message, id, &fallback) {
                    Ok(bytes) => FrameOutcome::Reply(bytes),
                    Err(_) => FrameOutcome::Close,
                }
            },
        }
    }

    /// The response to a request beyond the rate limit.
    pub fn build_rate_limited(retry_after_seconds: u64) -> (r: Document)
        ensures
            r@ == rate_limited_response(retry_after_seconds),
    {
        let mut doc = Document::new();
        doc.push("ok".to_owned(), Bson::Double(OK_ZERO));
        doc.push("errmsg".to_owned(), Bson::String("rate limit exceeded".to_owned()));
        doc.push("code".to_owned(), Bson::Int32(CODE_RATE_LIMITED));
        doc.push("codeName".to_owned(), Bson::String("RateLimited".to_owned()));
        doc.push(
            "retryAfterSeconds".to_owned(),
            Bson::Int64(#[verifier::truncate] (retry_after_seconds as i64)),
        );
        assert(doc@ =~= rate_limited_response(retry_after_seconds));
        doc
    }

    /// The response to a request that the circuit breaker refused.
    pub fn build_circuit_open(retry_after_ms: u64) -> (r: Document)
        ensures
            r@ == circuit_open_response(retry_after_ms),
    {
        let mut doc = Document::new();
        doc.push("ok".to_owned(), Bson::Double(OK_ZERO));
        doc.push("errmsg".to_owned(), Bson::String("circuit breaker is open".to_owned()));
        doc.push("code".to_owned(), Bson::Int32(CODE_CIRCUIT_OPEN));
        doc.push("codeName".to_owned(), Bson::String("CircuitOpen".to_owned()));
        doc.push(
            "retryAfterMs".to_owned(),
            Bson::Int64(#[verifier::truncate] (retry_after_ms as i64)),
        );
        assert(doc@ =~= circuit_open_response(retry_after_ms));
        doc
    }
}

impl Connection {
    /// Whether the connection is consistent.
    pub fn is_consistent(&self) -> (r: bool)
        ensures
            r == self.wf(),
    {
        self.processor.is_consistent() && self.next_request_id >= 1
    }
}

} // verus!
