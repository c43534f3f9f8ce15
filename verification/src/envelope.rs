//! The envelope of a call and of a reply, and the record mark in front of
//! each message on a byte stream.
//!
//! Messages are taken apart and put together by the `onc_rpc` crate. What is
//! read of a call is held here as plain values.

use onc_rpc::auth::AuthFlavor;
use onc_rpc::{AcceptedReply, Error, MessageType, RejectedReply, RpcMessage};
use vstd::prelude::*;

use crate::error::{AcceptedStatus, AcceptedStatusError, AuthError, ReplyBody, ReplyBodyView};
use crate::xdr::{spec_u32, spec_word};

verus! {

broadcast use crate::xdr::lemma_u32_len;

/// The number of bytes of a record mark.
pub const MSG_HEADER_LEN: usize = 4;

/// The bit of a record mark that says that the fragment is the last of its
/// record.
pub const LAST_FRAGMENT: u32 = 0x8000_0000;

/// The longest payload that a reply can carry: with the 28 bytes in front of
/// it, the message must have a length that the 31 bits of a record mark can
/// say.
pub const MAX_REPLY_PAYLOAD: usize = 0x7fff_ffe3;

/// A call, as read from one message.
#[derive(Debug, PartialEq)]
pub struct RpcCallEnvelope {
    /// The number by which the caller tells its calls apart.
    pub transaction_id: u32,
    /// The program that is called.
    pub program: u32,
    /// The version of the program.
    pub program_version: u32,
    /// The procedure of the program.
    pub procedure: u32,
    /// The flavor of the verifier of the call, as its number.
    pub auth: u32,
    /// The encoded argument of the procedure.
    pub payload: Vec<u8>,
}

/// What a call holds.
pub struct RpcCallEnvelopeView {
    /// The number by which the caller tells its calls apart.
    pub transaction_id: u32,
    /// The program that is called.
    pub program: u32,
    /// The version of the program.
    pub program_version: u32,
    /// The procedure of the program.
    pub procedure: u32,
    /// The flavor of the verifier of the call, as its number.
    pub auth: u32,
    /// The encoded argument of the procedure.
    pub payload: Seq<u8>,
}

impl View for RpcCallEnvelope {
    type V = RpcCallEnvelopeView;

    open spec fn view(&self) -> RpcCallEnvelopeView {
        RpcCallEnvelopeView {
            transaction_id: self.transaction_id,
            program: self.program,
            program_version: self.program_version,
            procedure: self.procedure,
            auth: self.auth,
            payload: self.payload@,
        }
    }
}

/// Why a message is not a call that can be answered.
#[derive(Clone, Copy, Debug, PartialEq, Eq, Structural)]
pub enum MessageError {
    /// The message is shorter than a record mark.
    IncompleteHeader,
    /// The record mark, or the message itself, speaks of another length than
    /// the message has.
    IncompleteMessage {
        /// The length of the message.
        buffer_len: usize,
        /// The length that was expected.
        expected: usize,
    },
    /// The message is a reply, which a server does not expect.
    NotACall,
    /// The message is malformed in another way.
    Malformed,
}

/// The length of the message that a record mark announces, the four bytes of
/// the mark included: `None` where the mark is not whole or does not say
/// that its fragment is the last.
pub open spec fn spec_expected_message_len(data: Seq<u8>) -> Option<u32> {
    if data.len() < 4 {
        None
    } else {
        let mark = spec_word(data[0], data[1], data[2], data[3]);
        if mark < LAST_FRAGMENT {
            None
        } else {
            Some((mark - LAST_FRAGMENT + 4) as u32)
        }
    }
}

/// The call that `onc_rpc` reads from a message, or why it reads none.
pub uninterp spec fn spec_parse_message(message: Seq<u8>) -> Result<
    RpcCallEnvelopeView,
    MessageError,
>;

/// The bytes of an accepted status behind the verifier of a reply: the
/// number of the status, then the payload of a success or the two versions
/// of a mismatch.
pub open spec fn spec_status_bytes(status: Result<Seq<u8>, AcceptedStatusError>) -> Seq<u8> {
    match status {
        Ok(payload) => spec_u32(0) + payload,
        Err(AcceptedStatusError::ProgramUnavailable) => spec_u32(1),
        Err(AcceptedStatusError::ProgramMismatch { low, high }) => spec_u32(2) + spec_u32(low)
            + spec_u32(high),
        Err(AcceptedStatusError::ProcedureUnavailable) => spec_u32(3),
        Err(AcceptedStatusError::GarbageArgs) => spec_u32(4),
        Err(AcceptedStatusError::SystemError) => spec_u32(5),
    }
}

/// The body of a reply on the wire. An accepted reply says so with a 0, has
/// the verifier "no authentication" (flavor 0 with 0 bytes) and the status.
/// A denied reply says so with a 1, says with another 1 that the
/// authentication failed, and why.
pub open spec fn spec_reply_body_bytes(body: ReplyBodyView) -> Seq<u8> {
    match body {
        ReplyBodyView::Accepted(status) => spec_u32(0) + spec_u32(0) + spec_u32(0)
            + spec_status_bytes(status),
        ReplyBodyView::Denied(error) => spec_u32(1) + spec_u32(1) + spec_u32(error.spec_code()),
    }
}

/// A reply on the wire: the record mark with the last-fragment bit and the
/// length of what follows it, the transaction identifier, a 1 for "reply",
/// and the body.
pub open spec fn spec_reply_message(xid: u32, body: ReplyBodyView) -> Seq<u8> {
    let rest = spec_u32(xid) + spec_u32(1) + spec_reply_body_bytes(body);
    spec_u32((LAST_FRAGMENT + rest.len()) as u32) + rest
}

/// What `onc_rpc::expected_message_len` reads from the record mark at the
/// start of `data`: the length of the whole message where the mark is there
/// and has the last-fragment bit, nothing otherwise.
#[verifier::external_body]
fn expected_message_len(data: &[u8]) -> (r: Option<u32>)
    ensures
        r == spec_expected_message_len(data@),
{
    onc_rpc::expected_message_len(data).ok()
}

/// What `onc_rpc::RpcMessage::try_from` reads from a message held in a
/// `bytes::Bytes`: the fields of the call, or which error it gave. The
/// result is a function of the bytes alone.
#[verifier::external_body]
fn parse_message(message: &[u8]) -> (r: Result<RpcCallEnvelope, MessageError>)
    ensures
        match spec_parse_message(message@) {
            Ok(call) => r matches Ok(c) && c@ == call,
            Err(e) => r == Err::<RpcCallEnvelope, MessageError>(e),
        },
{
    match onc_rpc::RpcMessage::try_from(bytes::Bytes::copy_from_slice(message)) {
        Ok(m) => match m.call_body() {
            Some(b) => Ok(RpcCallEnvelope {
                transaction_id: m.xid(), program: b.program(), program_version: b.program_version(),
                procedure: b.procedure(), auth: b.auth_verifier().id(), payload: b.payload().to_vec(),
            }),
            None => Err(MessageError::NotACall),
        },
        Err(Error::IncompleteHeader) => Err(MessageError::IncompleteHeader),
        Err(Error::IncompleteMessage { buffer_len, expected }) => Err(MessageError::IncompleteMessage { buffer_len, expected }),
        Err(_) => Err(MessageError::Malformed),
    }
}

/// What `onc_rpc::RpcMessage::serialise` makes of an accepted reply with the
/// verifier "no authentication": the message, record mark included. It
/// refuses a message that is too long for a record mark, and counts lengths
/// in 32 bits; a payload that `requires` admits gives a message that fits,
/// so there is always one.
#[verifier::external_body]
fn accepted_reply_bytes(xid: u32, status: &AcceptedStatus) -> (r: Option<Vec<u8>>)
    requires
        status matches AcceptedStatus::Success(payload) ==> payload@.len() <= MAX_REPLY_PAYLOAD,
    ensures
        r is Some,
        r matches Some(bytes) ==> bytes@ == spec_reply_message(
            xid,
            ReplyBodyView::Accepted(status@),
        ),
{
    let s: onc_rpc::AcceptedStatus<&[u8]> = match status {
        AcceptedStatus::Success(p) => onc_rpc::AcceptedStatus::Success(p.as_slice()),
        AcceptedStatus::ProgramUnavailable => onc_rpc::AcceptedStatus::ProgramUnavailable,
        AcceptedStatus::ProgramMismatch { low, high } => onc_rpc::AcceptedStatus::ProgramMismatch { low: *low, high: *high },
        AcceptedStatus::ProcedureUnavailable => onc_rpc::AcceptedStatus::ProcedureUnavailable,
        AcceptedStatus::GarbageArgs => onc_rpc::AcceptedStatus::GarbageArgs,
        AcceptedStatus::SystemError => onc_rpc::AcceptedStatus::SystemError,
    };
    let body = onc_rpc::ReplyBody::Accepted(AcceptedReply::new(AuthFlavor::<&[u8]>::AuthNone(None), s));
    RpcMessage::new(xid, MessageType::Reply(body)).serialise().ok()
}

/// What `onc_rpc::RpcMessage::serialise` makes of a reply that rejects the
/// credentials of a call: the message, record mark included. Such a message
/// has 24 bytes, so there is always one.
#[verifier::external_body]
fn denied_reply_bytes(xid: u32, error: AuthError) -> (r: Option<Vec<u8>>)
    ensures
        r is Some,
        r matches Some(bytes) ==> bytes@ == spec_reply_message(xid, ReplyBodyView::Denied(error)),
{
    let e = match error {
        AuthError::Success => onc_rpc::AuthError::Success,
        AuthError::BadCredentials => onc_rpc::AuthError::BadCredentials,
        AuthError::RejectedCredentials => onc_rpc::AuthError::RejectedCredentials,
        AuthError::BadVerifier => onc_rpc::AuthError::BadVerifier,
        AuthError::RejectedVerifier => onc_rpc::AuthError::RejectedVerifier,
        AuthError::TooWeak => onc_rpc::AuthError::TooWeak,
        AuthError::InvalidResponseVerifier => onc_rpc::AuthError::InvalidResponseVerifier,
        AuthError::Failed => onc_rpc::AuthError::Failed,
    };
    let body = onc_rpc::ReplyBody::<&[u8], &[u8]>::Denied(RejectedReply::AuthError(e));
    RpcMessage::new(xid, MessageType::Reply(body)).serialise().ok()
}

/// Why the bytes in front of a message do not announce one.
#[derive(Clone, Copy, Debug, PartialEq, Eq, Structural)]
pub enum FrameError {
    /// The record mark does not say that its fragment is the last: the
    /// message is fragmented.
    Fragmented,
    /// The record mark announces a message without a single byte.
    Empty,
}

/// The length of the message that a record mark announces, the mark
/// included.
pub open spec fn spec_get_length(header: Seq<u8>) -> Result<usize, FrameError> {
    match spec_expected_message_len(header) {
        None => Err(FrameError::Fragmented),
        Some(n) => if n == 4 {
            Err(FrameError::Empty)
        } else {
            Ok(n as usize)
        },
    }
}

/// The length of the message whose record mark is `header_bytes`, the mark
/// included: 4 more than the low 31 bits of the mark say. A mark without the
/// last-fragment bit, and one that announces nothing behind it, announce no
/// message.
pub fn get_length(header_bytes: &[u8; 4]) -> (r: Result<usize, FrameError>)
    ensures
        r == spec_get_length(header_bytes@),
        r matches Ok(n) ==> 4 < n <= 0x8000_0003,
{
    match expected_message_len(header_bytes.as_slice()) {
        None => Err(FrameError::Fragmented),
        Some(n) => if n == 4 {
            Err(FrameError::Empty)
        } else {
            Ok(n as usize)
        },
    }
}

/// The call that a whole message holds, record mark included, or why it
/// holds none that can be answered.
pub fn decode_call(message: &[u8]) -> (r: Result<RpcCallEnvelope, MessageError>)
    ensures
        match spec_parse_message(message@) {
            Ok(call) => r matches Ok(c) && c@ == call,
            Err(e) => r == Err::<RpcCallEnvelope, MessageError>(e),
        },
{
    parse_message(message)
}

/// The body that is sent for `body`: the body itself, but for a success
/// whose payload is longer than a reply can carry, for which a system error
/// is sent.
pub open spec fn spec_sendable(body: ReplyBodyView) -> ReplyBodyView {
    match body {
        ReplyBodyView::Accepted(Ok(payload)) => if payload.len() > MAX_REPLY_PAYLOAD {
            ReplyBodyView::Accepted(Err(AcceptedStatusError::SystemError))
        } else {
            body
        },
        _ => body,
    }
}

/// The message that answers the call with transaction identifier `xid`,
/// record mark included. The reply has the identifier of the call and the
/// verifier "no authentication".
pub fn encode_reply(xid: u32, body: &ReplyBody) -> (r: Vec<u8>)
    ensures
        r@ == spec_reply_message(xid, spec_sendable(body@)),
{
    let bytes = match body {
        ReplyBody::Accepted(status) => {
            let too_long = match status {
                AcceptedStatus::Success(payload) => payload.len() > MAX_REPLY_PAYLOAD,
                _ => false,
            };
            if too_long {
                accepted_reply_bytes(xid, &AcceptedStatus::SystemError)
            } else {
                accepted_reply_bytes(xid, status)
            }
        },
        ReplyBody::Denied(error) => denied_reply_bytes(xid, *error),
    };
    bytes.unwrap()
}

/// A reply starts with a record mark that announces the rest of it, and
/// carries the transaction identifier behind the mark.
pub proof fn lemma_reply_framed(xid: u32, body: ReplyBodyView)
    requires
        spec_sendable(body) == body,
    ensures
        spec_reply_message(xid, body).len() >= 24,
        spec_expected_message_len(spec_reply_message(xid, body)) == Some(
            spec_reply_message(xid, body).len() as u32,
        ),
        spec_reply_message(xid, body).subrange(4, 8) == spec_u32(xid),
{
    let rest = spec_u32(xid) + spec_u32(1) + spec_reply_body_bytes(body);
    let mark = (LAST_FRAGMENT + rest.len()) as u32;
    let message = spec_reply_message(xid, body);
    assert(rest.len() < LAST_FRAGMENT - 4);
    crate::xdr::lemma_word_round_trip(mark);
    assert(message[0] == spec_u32(mark)[0]);
    assert(message[1] == spec_u32(mark)[1]);
    assert(message[2] == spec_u32(mark)[2]);
    assert(message[3] == spec_u32(mark)[3]);
    assert(message.subrange(4, 8) =~= spec_u32(xid));
}

} // verus!
