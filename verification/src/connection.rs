//! One connection of a client: which bytes to read next, what to answer,
//! and when to give the connection up.
//!
//! The decisions are taken here; reading and writing the socket, and
//! locking the registry, is left to the caller, who performs each
//! [`Action`] and hands back what was read.

use vstd::prelude::*;

use crate::envelope::{
    decode_call, encode_reply, get_length, spec_get_length, spec_parse_message,
    spec_reply_message, spec_sendable, FrameError, MessageError, RpcCallEnvelope,
    RpcCallEnvelopeView, MSG_HEADER_LEN,
};
use crate::error::{
    convert_accepted_status, AcceptedStatus, AcceptedStatusError, ReplyBody, ReplyBodyView,
};
use crate::netconfig::NetConfigEntry;
use crate::process_request::{
    process_query, process_request, process_request_at, spec_mutates, spec_process_request,
    ProcessError, RequestResult,
};
use crate::request::{RpcRequest, RpcRequestView};
use crate::state::{EntryView, Registry};

verus! {

/// Where a connection stands between two reads.
#[derive(Clone, Copy, Debug, PartialEq, Eq)]
pub enum ConnectionState {
    /// The record mark of the next message is awaited.
    AwaitingHeader,
    /// The rest of a message is awaited.
    AwaitingBody {
        /// The record mark of the message.
        header: [u8; 4],
        /// The length of the message, the record mark included.
        length: usize,
    },
    /// The connection has been given up.
    Closed,
}

/// Why a connection is given up.
#[derive(Clone, Copy, Debug, PartialEq, Eq, Structural)]
pub enum CloseReason {
    /// The record mark announces no message.
    Frame(FrameError),
    /// The message is not a call that can be answered.
    Message(MessageError),
    /// Other bytes were handed in than the last action asked for.
    Protocol,
}

/// What the caller is to do next.
#[derive(Debug, PartialEq)]
pub enum Action {
    /// Read exactly this number of bytes and hand them in.
    Read(usize),
    /// Have the request handled by [`handle_request`] or [`handle_query`],
    /// write the reply, then do what [`next_read`] says.
    Dispatch {
        /// The transaction identifier of the call.
        xid: u32,
        /// The request of the call.
        request: RpcRequest,
    },
    /// Write this reply, then do what [`next_read`] says.
    Write(Vec<u8>),
    /// Close the connection.
    Close(CloseReason),
}

/// What an action holds.
pub enum ActionView {
    /// Read exactly this number of bytes and hand them in.
    Read(usize),
    /// Have the request handled and write the reply.
    Dispatch {
        /// The transaction identifier of the call.
        xid: u32,
        /// The request of the call.
        request: RpcRequestView,
    },
    /// Write this reply.
    Write(Seq<u8>),
    /// Close the connection.
    Close(CloseReason),
}

impl View for Action {
    type V = ActionView;

    open spec fn view(&self) -> ActionView {
        match *self {
            Action::Read(n) => ActionView::Read(n),
            Action::Dispatch { xid, request } => ActionView::Dispatch { xid, request: request@ },
            Action::Write(reply) => ActionView::Write(reply@),
            Action::Close(reason) => ActionView::Close(reason),
        }
    }
}

/// What a message leads to, given what was read from it. A call that holds a
/// request is dispatched. A call that holds none is answered with the status
/// that says why, under the transaction identifier of the call, and the
/// connection goes on. A message that is no call ends the connection.
pub open spec fn spec_on_message(parsed: Result<RpcCallEnvelopeView, MessageError>) -> (
    ConnectionState,
    ActionView,
) {
    match parsed {
        Err(e) => (ConnectionState::Closed, ActionView::Close(CloseReason::Message(e))),
        Ok(call) => match RpcRequest::spec_decode(call) {
            Ok(request) => (
                ConnectionState::AwaitingHeader,
                ActionView::Dispatch { xid: call.transaction_id, request },
            ),
            Err(e) => (
                ConnectionState::AwaitingHeader,
                ActionView::Write(
                    spec_reply_message(
                        call.transaction_id,
                        ReplyBodyView::Accepted(Err(e.spec_status())),
                    ),
                ),
            ),
        },
    }
}

/// What the bytes that were read lead to, from where the connection stood.
pub open spec fn spec_handle_client(state: ConnectionState, input: Seq<u8>) -> (
    ConnectionState,
    ActionView,
) {
    match state {
        ConnectionState::AwaitingHeader => if input.len() == 4 {
            match spec_get_length(input) {
                Ok(length) => (
                    ConnectionState::AwaitingBody {
                        header: [input[0], input[1], input[2], input[3]],
                        length,
                    },
                    ActionView::Read((length - 4) as usize),
                ),
                Err(e) => (ConnectionState::Closed, ActionView::Close(CloseReason::Frame(e))),
            }
        } else {
            (ConnectionState::Closed, ActionView::Close(CloseReason::Protocol))
        },
        ConnectionState::AwaitingBody { header, length } => if input.len() + 4 == length {
            spec_on_message(spec_parse_message(header@ + input))
        } else {
            (ConnectionState::Closed, ActionView::Close(CloseReason::Protocol))
        },
        ConnectionState::Closed => (
            ConnectionState::Closed,
            ActionView::Close(CloseReason::Protocol),
        ),
    }
}

/// A new connection: a record mark is read first.
pub fn start() -> (r: (ConnectionState, Action))
    ensures
        r.0 == ConnectionState::AwaitingHeader,
        r.1@ == ActionView::Read(4),
{
    (ConnectionState::AwaitingHeader, Action::Read(MSG_HEADER_LEN))
}

/// What to read next once a reply has been written: the record mark of the
/// next message, as long as the connection goes on.
pub fn next_read(state: ConnectionState) -> (r: Action)
    ensures
        r@ == match state {
            ConnectionState::AwaitingHeader => ActionView::Read(4),
            ConnectionState::AwaitingBody { header, length } => if length >= 4 {
                ActionView::Read((length - 4) as usize)
            } else {
                ActionView::Close(CloseReason::Protocol)
            },
            ConnectionState::Closed => ActionView::Close(CloseReason::Protocol),
        },
{
    match state {
        ConnectionState::AwaitingHeader => Action::Read(MSG_HEADER_LEN),
        ConnectionState::AwaitingBody { header, length } => if length >= MSG_HEADER_LEN {
            Action::Read(length - MSG_HEADER_LEN)
        } else {
            Action::Close(CloseReason::Protocol)
        },
        ConnectionState::Closed => Action::Close(CloseReason::Protocol),
    }
}

/// Decides what a message leads to, given what was read from it.
pub fn on_message(parsed: Result<RpcCallEnvelope, MessageError>) -> (r: (ConnectionState, Action))
    ensures
        r.0 == spec_on_message(
            match parsed {
                Ok(call) => Ok(call@),
                Err(e) => Err(e),
            },
        ).0,
        r.1@ == spec_on_message(
            match parsed {
                Ok(call) => Ok(call@),
                Err(e) => Err(e),
            },
        ).1,
{
    match parsed {
        Err(e) => (ConnectionState::Closed, Action::Close(CloseReason::Message(e))),
        Ok(call) => match RpcRequest::from_body(&call) {
            Ok(request) => (
                ConnectionState::AwaitingHeader,
                Action::Dispatch { xid: call.transaction_id, request },
            ),
            Err(status) => {
                let body = ReplyBody::Accepted(convert_accepted_status(&status));
                (
                    ConnectionState::AwaitingHeader,
                    Action::Write(encode_reply(call.transaction_id, &body)),
                )
            },
        },
    }
}

/// Takes the bytes that the last action asked for and decides what to do
/// next. A record mark leads to reading the rest of its message; a whole
/// message leads to a request, a reply or the end of the connection; other
/// bytes than were asked for end the connection.
pub fn handle_client(state: ConnectionState, input: &[u8]) -> (r: (ConnectionState, Action))
    ensures
        r.0 == spec_handle_client(state, input@).0,
        r.1@ == spec_handle_client(state, input@).1,
{
    match state {
        ConnectionState::AwaitingHeader => {
            if input.len() != MSG_HEADER_LEN {
                return (ConnectionState::Closed, Action::Close(CloseReason::Protocol));
            }
            let header: [u8; 4] = [input[0], input[1], input[2], input[3]];
            assert(header@ =~= input@);
            match get_length(&header) {
                Ok(length) => (
                    ConnectionState::AwaitingBody { header, length },
                    Action::Read(length - MSG_HEADER_LEN),
                ),
                Err(e) => (ConnectionState::Closed, Action::Close(CloseReason::Frame(e))),
            }
        },
        ConnectionState::AwaitingBody { header, length } => {
            if length < MSG_HEADER_LEN || input.len() != length - MSG_HEADER_LEN {
                return (ConnectionState::Closed, Action::Close(CloseReason::Protocol));
            }
            let mut message: Vec<u8> = Vec::new();
            message.push(header[0]);
            message.push(header[1]);
            message.push(header[2]);
            message.push(header[3]);
            let mut i: usize = 0;
            assert(message@ =~= header@ + input@.take(0));
            while i < input.len()
                invariant
                    i <= input@.len(),
                    message@ == header@ + input@.take(i as int),
                decreases input@.len() - i,
            {
                message.push(input[i]);
                i += 1;
                assert(message@ =~= header@ + input@.take(i as int));
            }
            assert(input@.take(i as int) =~= input@);
            on_message(decode_call(message.as_slice()))
        },
        ConnectionState::Closed => (ConnectionState::Closed, Action::Close(CloseReason::Protocol)),
    }
}

/// The body of the reply that reports an outcome: the result of a success,
/// the failure of a request that failed, and an unavailable procedure for
/// one that is not yet implemented.
pub open spec fn spec_reply_body(result: Result<Seq<u8>, ProcessError>) -> ReplyBodyView {
    match result {
        Ok(bytes) => ReplyBodyView::Accepted(Ok(bytes)),
        Err(ProcessError::Reply(e)) => e.spec_reply_body(),
        Err(ProcessError::NotYetImplemented) => ReplyBodyView::Accepted(
            Err(AcceptedStatusError::ProcedureUnavailable),
        ),
    }
}

/// The reply that answers a call with an outcome.
pub open spec fn spec_reply(xid: u32, result: Result<Seq<u8>, ProcessError>) -> Seq<u8> {
    spec_reply_message(xid, spec_sendable(spec_reply_body(result)))
}

/// The message that answers the call `xid` with the outcome of its request.
pub fn reply_to(xid: u32, result: RequestResult) -> (r: Vec<u8>)
    ensures
        r@ == spec_reply(
            xid,
            match result {
                Ok(bytes) => Ok(bytes@),
                Err(e) => Err(e),
            },
        ),
{
    let body = match result {
        Ok(bytes) => ReplyBody::Accepted(AcceptedStatus::Success(bytes)),
        Err(ProcessError::Reply(e)) => e.reply_body(),
        Err(ProcessError::NotYetImplemented) => ReplyBody::Accepted(
            AcceptedStatus::ProcedureUnavailable,
        ),
    };
    encode_reply(xid, &body)
}

/// Handles the request of the call `xid` at a given time and gives the
/// message that answers it.
pub fn handle_request_at(
    xid: u32,
    request: &RpcRequest,
    state: &mut Registry,
    net_config: &[NetConfigEntry],
    now: Option<u64>,
) -> (r: Vec<u8>)
    requires
        old(state).well_formed(),
    ensures
        final(state).well_formed(),
        final(state)@ == spec_process_request(
            request@,
            old(state)@,
            NetConfigEntry::views(net_config@),
            now,
        ).0,
        r@ == spec_reply(
            xid,
            spec_process_request(
                request@,
                old(state)@,
                NetConfigEntry::views(net_config@),
                now,
            ).1,
        ),
{
    let result = process_request_at(request, state, net_config, now);
    reply_to(xid, result)
}

/// Handles the request of the call `xid` and gives the message that answers
/// it. The clock is read where the request asks for the time.
pub fn handle_request(
    xid: u32,
    request: &RpcRequest,
    state: &mut Registry,
    net_config: &[NetConfigEntry],
) -> (r: Vec<u8>)
    requires
        old(state).well_formed(),
    ensures
        final(state).well_formed(),
        exists|now: Option<u64>|
            final(state)@ == (#[trigger] spec_process_request(
                request@,
                old(state)@,
                NetConfigEntry::views(net_config@),
                now,
            )).0 && r@ == spec_reply(
                xid,
                spec_process_request(
                    request@,
                    old(state)@,
                    NetConfigEntry::views(net_config@),
                    now,
                ).1,
            ),
{
    let result = process_request(request, state, net_config);
    reply_to(xid, result)
}

/// Handles the request of the call `xid` where it only reads the registry,
/// and gives the message that answers it; `None` for a request that can
/// change the registry, which [`handle_request`] handles.
pub fn handle_query(
    xid: u32,
    request: &RpcRequest,
    state: &Registry,
    net_config: &[NetConfigEntry],
) -> (r: Option<Vec<u8>>)
    ensures
        spec_mutates(request@) <==> r is None,
        r matches Some(reply) ==> exists|now: Option<u64>|
            reply@ == spec_reply(
                xid,
                (#[trigger] spec_process_request(
                    request@,
                    state@,
                    NetConfigEntry::views(net_config@),
                    now,
                )).1,
            ),
{
    match process_query(request, state, net_config) {
        Some(result) => Some(reply_to(xid, result)),
        None => None,
    }
}

/// A call for statistics in version 3 or 4 holds a request, and the request
/// is answered with an unavailable procedure and changes nothing, whatever
/// the registry holds.
pub proof fn lemma_get_stat_unavailable(
    call: RpcCallEnvelopeView,
    entries: Seq<EntryView>,
    net_config: Seq<crate::netconfig::NetConfigEntryView>,
    now: Option<u64>,
)
    requires
        call.program_version == 3 || call.program_version == 4,
        call.procedure == 12,
    ensures
        RpcRequest::spec_decode(call) matches Ok(request) && spec_process_request(
            request,
            entries,
            net_config,
            now,
        ) == (
            entries,
            Err::<Seq<u8>, ProcessError>(
                ProcessError::Reply(crate::process_request::procedure_unavailable()),
            ),
        ) && spec_reply_body(spec_process_request(request, entries, net_config, now).1)
            == ReplyBodyView::Accepted(Err(AcceptedStatusError::ProcedureUnavailable)),
{
}

/// A call whose payload does not decode is answered with garbage arguments
/// under its own transaction identifier, and the connection goes on to the
/// next message. A GetPort call with a truncated payload is such a call.
pub proof fn lemma_malformed_payload(call: RpcCallEnvelopeView)
    requires
        RpcRequest::spec_decode(call) matches Err(
            crate::error::DecodeError::XDRDeserialization(_),
        ) || (call.program_version == 2 && call.procedure == 3 && call.payload.len() < 16),
    ensures
        spec_on_message(Ok(call)) == (
            ConnectionState::AwaitingHeader,
            ActionView::Write(
                spec_reply_message(
                    call.transaction_id,
                    ReplyBodyView::Accepted(Err(AcceptedStatusError::GarbageArgs)),
                ),
            ),
        ),
{
    if call.program_version == 2 && call.procedure == 3 && call.payload.len() < 16 {
        crate::xdr_types::port_mapper::Mapping::lemma_truncated(call.payload);
    }
}

/// A call in a version that is not served is answered with a mismatch that
/// names the versions 2 to 4, whatever its procedure, and the connection
/// goes on.
pub proof fn lemma_version_mismatch(call: RpcCallEnvelopeView)
    requires
        call.program_version < 2 || call.program_version > 4,
    ensures
        spec_on_message(Ok(call)) == (
            ConnectionState::AwaitingHeader,
            ActionView::Write(
                spec_reply_message(
                    call.transaction_id,
                    ReplyBodyView::Accepted(
                        Err(AcceptedStatusError::ProgramMismatch { low: 2, high: 4 }),
                    ),
                ),
            ),
        ),
{
}

} // verus!
