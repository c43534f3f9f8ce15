use onc_rpc::auth::AuthFlavor;
use onc_rpc::{CallBody, MessageType, RpcMessage};
use rpcbind_rs::connection::{
    handle_client, handle_query, handle_request, handle_request_at, next_read, on_message,
    reply_to, start, Action,
    CloseReason, ConnectionState,
};
use rpcbind_rs::envelope::{
    decode_call, encode_reply, get_length, FrameError, MessageError, RpcCallEnvelope,
};
use rpcbind_rs::error::{AcceptedStatus, AcceptedStatusError, AuthError, RPCError, ReplyBody};
use rpcbind_rs::process_request::ProcessError;
use rpcbind_rs::request::{PortMapperRequest, RpcBindRequest, RpcRequest};
use rpcbind_rs::state::Registry;
use rpcbind_rs::xdr_types::port_mapper::Mapping;

fn call_message(xid: u32, version: u32, procedure: u32, payload: &[u8]) -> Vec<u8> {
    let body = CallBody::new(
        100000,
        version,
        procedure,
        AuthFlavor::<&[u8]>::AuthNone(None),
        AuthFlavor::<&[u8]>::AuthNone(None),
        payload,
    );
    RpcMessage::new(xid, MessageType::Call(body)).serialise().unwrap()
}

fn accepted(xid: u32, status: u32, rest: &[u8]) -> Vec<u8> {
    let mut body = xid.to_be_bytes().to_vec();
    body.extend_from_slice(&[0, 0, 0, 1]);
    body.extend_from_slice(&[0, 0, 0, 0]);
    body.extend_from_slice(&[0, 0, 0, 0, 0, 0, 0, 0]);
    body.extend_from_slice(&status.to_be_bytes());
    body.extend_from_slice(rest);
    let mut message = (0x8000_0000u32 + body.len() as u32).to_be_bytes().to_vec();
    message.extend(body);
    message
}

fn mapping_bytes(mapping: &Mapping) -> Vec<u8> {
    let mut out = Vec::new();
    mapping.encode(&mut out);
    out
}

/// Feeds one message to a connection that awaits a record mark and answers
/// the request where the message holds one.
fn exchange(
    state: ConnectionState,
    message: &[u8],
    registry: &mut Registry,
) -> (ConnectionState, Option<Vec<u8>>) {
    let (state, action) = handle_client(state, &message[..4]);
    assert_eq!(action, Action::Read(message.len() - 4));
    let (state, action) = handle_client(state, &message[4..]);
    match action {
        Action::Dispatch { xid, request } => {
            (state, Some(handle_request(xid, &request, registry, &[])))
        }
        Action::Write(reply) => (state, Some(reply)),
        Action::Close(_) => (state, None),
        Action::Read(_) => panic!("a message leads to no read"),
    }
}

#[test]
fn record_mark_announces_the_length() {
    assert_eq!(get_length(&[0x80, 0, 0, 0x1c]), Ok(32));
    assert_eq!(get_length(&[0x80, 0, 0, 1]), Ok(5));
    assert_eq!(get_length(&[0x80, 0, 1, 0x1c]), Ok(288));
    assert_eq!(get_length(&[0xff, 0xff, 0xff, 0xff]), Ok(0x8000_0003));
    assert_eq!(get_length(&[0x80, 0, 0, 0]), Err(FrameError::Empty));
    assert_eq!(get_length(&[0, 0, 0, 0x1c]), Err(FrameError::Fragmented));
    assert_eq!(get_length(&[0x7f, 0xff, 0xff, 0xff]), Err(FrameError::Fragmented));
}

#[test]
fn call_is_read_from_a_message() {
    let message = call_message(0xdead_beef, 2, 3, &[1, 2, 3, 4, 5]);
    assert_eq!(
        decode_call(&message),
        Ok(RpcCallEnvelope {
            transaction_id: 0xdead_beef,
            program: 100000,
            program_version: 2,
            procedure: 3,
            auth: 0,
            payload: vec![1, 2, 3, 4, 5],
        })
    );
    let unix = [
        0x80, 0, 0, 0x3c, 0, 0, 0, 9, 0, 0, 0, 0, 0, 0, 0, 2, 0, 1, 0x86, 0xa0, 0, 0, 0, 4, 0, 0,
        0, 4, 0, 0, 0, 1, 0, 0, 0, 0x14, 0, 0, 0, 0, 0, 0, 0, 0, 0, 0, 0, 0, 0, 0, 0, 0, 0, 0, 0,
        0, 0, 0, 0, 0, 0, 0, 0, 0,
    ];
    let call = decode_call(&unix).unwrap();
    assert_eq!((call.transaction_id, call.program_version, call.procedure), (9, 4, 4));
    assert!(call.payload.is_empty());
}

#[test]
fn message_that_is_no_call_is_refused() {
    let reply = accepted(5, 0, &[]);
    assert_eq!(decode_call(&reply), Err(MessageError::NotACall));
    assert_eq!(decode_call(&[0x80, 0, 0]), Err(MessageError::IncompleteHeader));
    let message = call_message(1, 2, 0, &[]);
    assert_eq!(
        decode_call(&message[..message.len() - 1]),
        Err(MessageError::IncompleteMessage {
            buffer_len: message.len() - 1,
            expected: message.len(),
        })
    );
    let mut wrong_rpc_version = message.clone();
    wrong_rpc_version[15] = 3;
    assert_eq!(decode_call(&wrong_rpc_version), Err(MessageError::Malformed));
    let mut fragment = message.clone();
    fragment[0] = 0;
    assert_eq!(decode_call(&fragment), Err(MessageError::Malformed));
    let mut other_type = message;
    other_type[11] = 7;
    assert_eq!(decode_call(&other_type), Err(MessageError::Malformed));
}

#[test]
fn reply_has_the_identifier_and_no_authentication() {
    let body = ReplyBody::Accepted(AcceptedStatus::Success(vec![0, 0, 0, 1]));
    let reply = encode_reply(0x0102_0304, &body);
    assert_eq!(
        reply,
        vec![
            0x80, 0, 0, 0x1c, 1, 2, 3, 4, 0, 0, 0, 1, 0, 0, 0, 0, 0, 0, 0, 0, 0, 0, 0, 0, 0, 0,
            0, 0, 0, 0, 0, 1
        ]
    );
    assert_eq!(get_length(&[reply[0], reply[1], reply[2], reply[3]]), Ok(reply.len()));
    let parsed = RpcMessage::try_from(reply.as_slice()).unwrap();
    assert_eq!(parsed.xid(), 0x0102_0304);
    let accepted = match parsed.reply_body() {
        Some(onc_rpc::ReplyBody::Accepted(accepted)) => accepted,
        _ => panic!("the reply is accepted"),
    };
    assert_eq!(accepted.auth_verifier(), &AuthFlavor::AuthNone(None));
    assert_eq!(accepted.status(), &onc_rpc::AcceptedStatus::Success(&[0u8, 0, 0, 1][..]));
}

#[test]
fn reply_reports_each_failure_by_its_number() {
    let failure = |status| encode_reply(7, &ReplyBody::Accepted(status));
    assert_eq!(failure(AcceptedStatus::Success(vec![])), accepted(7, 0, &[]));
    assert_eq!(failure(AcceptedStatus::ProgramUnavailable), accepted(7, 1, &[]));
    assert_eq!(
        failure(AcceptedStatus::ProgramMismatch { low: 2, high: 4 }),
        accepted(7, 2, &[0, 0, 0, 2, 0, 0, 0, 4])
    );
    assert_eq!(failure(AcceptedStatus::ProcedureUnavailable), accepted(7, 3, &[]));
    assert_eq!(failure(AcceptedStatus::GarbageArgs), accepted(7, 4, &[]));
    assert_eq!(failure(AcceptedStatus::SystemError), accepted(7, 5, &[]));
}

#[test]
fn reply_that_rejects_the_credentials() {
    let errors = [
        AuthError::Success,
        AuthError::BadCredentials,
        AuthError::RejectedCredentials,
        AuthError::BadVerifier,
        AuthError::RejectedVerifier,
        AuthError::TooWeak,
        AuthError::InvalidResponseVerifier,
        AuthError::Failed,
    ];
    for (code, error) in errors.iter().enumerate() {
        let reply = encode_reply(3, &ReplyBody::Denied(*error));
        assert_eq!(
            reply,
            vec![
                0x80, 0, 0, 0x14, 0, 0, 0, 3, 0, 0, 0, 1, 0, 0, 0, 1, 0, 0, 0, 1, 0, 0, 0,
                code as u8
            ]
        );
        assert_eq!(reply_to(3, Err(ProcessError::Reply(RPCError::Denied(*error)))), reply);
    }
}

#[test]
fn outcome_is_turned_into_a_reply() {
    assert_eq!(reply_to(1, Ok(vec![9, 9, 9, 9])), accepted(1, 0, &[9, 9, 9, 9]));
    assert_eq!(
        reply_to(1, Err(ProcessError::Reply(RPCError::Accepted(AcceptedStatusError::SystemError)))),
        accepted(1, 5, &[])
    );
    assert_eq!(reply_to(1, Err(ProcessError::NotYetImplemented)), accepted(1, 3, &[]));
}

#[test]
fn connection_starts_by_reading_a_record_mark() {
    assert_eq!(start(), (ConnectionState::AwaitingHeader, Action::Read(4)));
}

#[test]
fn connection_reads_the_message_that_the_mark_announces() {
    let (state, action) = handle_client(ConnectionState::AwaitingHeader, &[0x80, 0, 0, 0x28]);
    assert_eq!(state, ConnectionState::AwaitingBody { header: [0x80, 0, 0, 0x28], length: 44 });
    assert_eq!(action, Action::Read(40));
}

#[test]
fn connection_is_given_up_on_a_bad_record_mark() {
    assert_eq!(
        handle_client(ConnectionState::AwaitingHeader, &[0, 0, 0, 0x28]),
        (ConnectionState::Closed, Action::Close(CloseReason::Frame(FrameError::Fragmented)))
    );
    assert_eq!(
        handle_client(ConnectionState::AwaitingHeader, &[0x80, 0, 0, 0]),
        (ConnectionState::Closed, Action::Close(CloseReason::Frame(FrameError::Empty)))
    );
    let closed = (ConnectionState::Closed, Action::Close(CloseReason::Protocol));
    assert_eq!(handle_client(ConnectionState::AwaitingHeader, &[0x80, 0, 0]), closed);
    assert_eq!(handle_client(ConnectionState::AwaitingHeader, &[0x80, 0, 0, 4, 0]), closed);
    assert_eq!(handle_client(ConnectionState::Closed, &[0x80, 0, 0, 4]), closed);
    let awaiting = ConnectionState::AwaitingBody { header: [0x80, 0, 0, 8], length: 12 };
    assert_eq!(handle_client(awaiting, &[0; 7]), closed);
    assert_eq!(handle_client(awaiting, &[0; 9]), closed);
}

#[test]
fn connection_is_given_up_on_a_reply() {
    let mut registry = Registry::new();
    let message = accepted(5, 0, &[]);
    let (state, reply) = exchange(ConnectionState::AwaitingHeader, &message, &mut registry);
    assert_eq!(state, ConnectionState::Closed);
    assert_eq!(reply, None);
    let (state, action) = handle_client(ConnectionState::AwaitingHeader, &message[..4]);
    assert_eq!(action, Action::Read(message.len() - 4));
    assert_eq!(
        handle_client(state, &message[4..]),
        (ConnectionState::Closed, Action::Close(CloseReason::Message(MessageError::NotACall)))
    );
}

#[test]
fn call_with_a_request_is_dispatched() {
    let mapping = Mapping { prog: 100003, vers: 3, prot: 6, port: 2049 };
    let message = call_message(42, 2, 1, &mapping_bytes(&mapping));
    let (state, action) = handle_client(ConnectionState::AwaitingHeader, &message[..4]);
    assert_eq!(action, Action::Read(message.len() - 4));
    let (state, action) = handle_client(state, &message[4..]);
    assert_eq!(state, ConnectionState::AwaitingHeader);
    assert_eq!(
        action,
        Action::Dispatch {
            xid: 42,
            request: RpcRequest::V2(PortMapperRequest::SetMapping(mapping)),
        }
    );
    assert_eq!(
        on_message(decode_call(&message)),
        (
            ConnectionState::AwaitingHeader,
            Action::Dispatch {
                xid: 42,
                request: RpcRequest::V2(PortMapperRequest::SetMapping(mapping)),
            }
        )
    );
    assert_eq!(
        on_message(Err(MessageError::Malformed)),
        (ConnectionState::Closed, Action::Close(CloseReason::Message(MessageError::Malformed)))
    );
}

#[test]
fn version_five_is_a_mismatch_whatever_the_procedure() {
    let mut registry = Registry::new();
    for procedure in [0u32, 1, 3, 4, 12, 77] {
        let message = call_message(11, 5, procedure, &[0; 16]);
        let (state, reply) = exchange(ConnectionState::AwaitingHeader, &message, &mut registry);
        assert_eq!(state, ConnectionState::AwaitingHeader);
        assert_eq!(reply, Some(accepted(11, 2, &[0, 0, 0, 2, 0, 0, 0, 4])));
    }
}

#[test]
fn statistics_are_unavailable_in_versions_three_and_four() {
    let mut registry = Registry::new();
    for version in [3u32, 4] {
        let message = call_message(12, version, 12, &[]);
        let (state, reply) = exchange(ConnectionState::AwaitingHeader, &message, &mut registry);
        assert_eq!(state, ConnectionState::AwaitingHeader);
        assert_eq!(reply, Some(accepted(12, 3, &[])));
    }
    let request = RpcRequest::V3(RpcBindRequest::GetStat);
    assert_eq!(handle_request_at(12, &request, &mut registry, &[], None), accepted(12, 3, &[]));
}

#[test]
fn malformed_payload_is_answered_and_the_connection_goes_on() {
    let mut registry = Registry::new();
    let mapping = Mapping { prog: 100003, vers: 3, prot: 6, port: 2049 };
    let set = call_message(1, 2, 1, &mapping_bytes(&mapping));
    let (state, reply) = exchange(ConnectionState::AwaitingHeader, &set, &mut registry);
    assert_eq!(reply, Some(accepted(1, 0, &[0, 0, 0, 1])));

    let truncated = call_message(2, 2, 3, &mapping_bytes(&mapping)[..10]);
    let (state, reply) = exchange(state, &truncated, &mut registry);
    assert_eq!(state, ConnectionState::AwaitingHeader);
    assert_eq!(reply, Some(accepted(2, 4, &[])));

    let well_formed = call_message(3, 2, 3, &mapping_bytes(&mapping));
    let (state, reply) = exchange(state, &well_formed, &mut registry);
    assert_eq!(state, ConnectionState::AwaitingHeader);
    assert_eq!(reply, Some(accepted(3, 0, &[0, 0, 8, 1])));

    let miss = Mapping { prog: 100003, vers: 3, prot: 17, port: 0 };
    let (_, reply) = exchange(state, &call_message(4, 2, 3, &mapping_bytes(&miss)), &mut registry);
    assert_eq!(reply, Some(accepted(4, 0, &[0, 0, 0, 0])));
}

#[test]
fn dump_over_a_connection() {
    let mut registry = Registry::new();
    let (state, reply) =
        exchange(ConnectionState::AwaitingHeader, &call_message(1, 4, 4, &[]), &mut registry);
    assert_eq!(reply, Some(accepted(1, 0, &[0, 0, 0, 0])));
    let (state, reply) = exchange(state, &call_message(2, 2, 4, &[]), &mut registry);
    assert_eq!(reply, Some(accepted(2, 0, &[0, 0, 0, 0])));
    let (_, reply) = exchange(state, &call_message(3, 2, 0, &[]), &mut registry);
    assert_eq!(reply, Some(accepted(3, 0, &[])));
}

#[test]
fn unknown_procedure_over_a_connection() {
    let mut registry = Registry::new();
    let (state, reply) =
        exchange(ConnectionState::AwaitingHeader, &call_message(8, 2, 9, &[]), &mut registry);
    assert_eq!(state, ConnectionState::AwaitingHeader);
    assert_eq!(reply, Some(accepted(8, 3, &[])));
    let (_, reply) = exchange(state, &call_message(9, 2, 5, &[0; 16]), &mut registry);
    assert_eq!(reply, Some(accepted(9, 3, &[])));
}

#[test]
fn next_read_follows_the_state() {
    assert_eq!(next_read(ConnectionState::AwaitingHeader), Action::Read(4));
    assert_eq!(
        next_read(ConnectionState::AwaitingBody { header: [0x80, 0, 0, 8], length: 12 }),
        Action::Read(8)
    );
    assert_eq!(next_read(ConnectionState::Closed), Action::Close(CloseReason::Protocol));
}

#[test]
fn queries_are_answered_without_changing_the_registry() {
    let mut registry = Registry::new();
    let mapping = Mapping { prog: 100003, vers: 3, prot: 6, port: 2049 };
    let set = RpcRequest::V2(PortMapperRequest::SetMapping(mapping));
    assert_eq!(handle_query(1, &set, &registry, &[]), None);
    assert_eq!(handle_request(1, &set, &mut registry, &[]), accepted(1, 0, &[0, 0, 0, 1]));
    let get = RpcRequest::V2(PortMapperRequest::GetPort(mapping));
    assert_eq!(handle_query(2, &get, &registry, &[]), Some(accepted(2, 0, &[0, 0, 8, 1])));
    let unset = RpcRequest::V4(RpcBindRequest::Unset(rpcbind_rs::xdr_types::rpcbind::RPCB {
        r_prog: 100003,
        r_vers: 3,
        r_netid: String::new(),
        r_addr: String::new(),
        r_owner: String::new(),
    }));
    assert_eq!(handle_query(3, &unset, &registry, &[]), None);
    assert_eq!(registry.len(), 1);
    let stat = RpcRequest::V3(RpcBindRequest::GetStat);
    assert_eq!(handle_query(4, &stat, &registry, &[]), Some(accepted(4, 3, &[])));
}
