//! The procedures: what each request does to the registry and what it
//! answers.

use vstd::prelude::*;
use vstd::utf8::encode_utf8;

use crate::error::{AcceptedStatusError, RPCError, RPCResult};
use crate::netconfig::{NetConfigEntry, NetConfigEntryView};
use crate::request::{RpcRequest, RpcRequestView};
use crate::state::{
    spec_insert_if_absent, EntryView, ProgramDescription, ProgramDescriptionView, ProgramKey,
    ProgramKeyView, Registry,
};
use crate::xdr::{put_bool, put_string, put_u32, spec_bool, spec_string, spec_u32};

pub mod portmapper;
pub mod rpcbind;

verus! {

/// Why a request was not answered with a result.
#[derive(Clone, Copy, Debug, PartialEq, Eq, Structural)]
pub enum ProcessError {
    /// The request failed; the failure is what the reply reports.
    Reply(RPCError),
    /// The procedure is known and not yet implemented.
    NotYetImplemented,
}

/// The encoded result of a request, or why there is none.
pub type RequestResult = Result<Vec<u8>, ProcessError>;

/// Whether `r` is the result `expected`, bytes for bytes.
pub open spec fn answers(r: RPCResult<Vec<u8>>, expected: Result<Seq<u8>, RPCError>) -> bool {
    match expected {
        Ok(bytes) => r matches Ok(b) && b@ == bytes,
        Err(e) => r == Err::<Vec<u8>, RPCError>(e),
    }
}

/// Whether `r` is the outcome `expected`, bytes for bytes.
pub open spec fn outcome(r: RequestResult, expected: Result<Seq<u8>, ProcessError>) -> bool {
    match expected {
        Ok(bytes) => r matches Ok(b) && b@ == bytes,
        Err(e) => r == Err::<Vec<u8>, ProcessError>(e),
    }
}

/// The outcome of a request that a handler has answered.
pub open spec fn handled(expected: Result<Seq<u8>, RPCError>) -> Result<Seq<u8>, ProcessError> {
    match expected {
        Ok(bytes) => Ok(bytes),
        Err(e) => Err(ProcessError::Reply(e)),
    }
}

/// The failure that reports garbage arguments.
pub open spec fn garbage_args() -> RPCError {
    RPCError::Accepted(AcceptedStatusError::GarbageArgs)
}

/// The failure that reports a system error.
pub open spec fn system_error() -> RPCError {
    RPCError::Accepted(AcceptedStatusError::SystemError)
}

/// The failure that reports an unavailable procedure.
pub open spec fn procedure_unavailable() -> RPCError {
    RPCError::Accepted(AcceptedStatusError::ProcedureUnavailable)
}

/// Registering a binding: the registry then, and the answer, which says
/// whether the binding was registered.
pub open spec fn spec_set(entries: Seq<EntryView>, key: ProgramKeyView, value: ProgramDescriptionView) -> (
    Seq<EntryView>,
    Result<Seq<u8>, RPCError>,
) {
    let (after, inserted) = spec_insert_if_absent(entries, key, value);
    (after, Ok(spec_bool(inserted)))
}

/// The encoding of a boolean result.
pub fn serialize_bool(value: bool) -> (r: RPCResult<Vec<u8>>)
    ensures
        answers(r, Ok(spec_bool(value))),
{
    let mut out: Vec<u8> = Vec::new();
    put_bool(&mut out, value);
    assert(out@ =~= spec_bool(value));
    Ok(out)
}

/// The encoding of a number as a result.
pub fn serialize_u32(value: u32) -> (r: RPCResult<Vec<u8>>)
    ensures
        answers(r, Ok(spec_u32(value))),
{
    let mut out: Vec<u8> = Vec::new();
    put_u32(&mut out, value);
    assert(out@ =~= spec_u32(value));
    Ok(out)
}

/// The encoding of a text as a result, or a system error where the text is
/// too long to be encoded.
pub fn serialize_string(value: &str) -> (r: RPCResult<Vec<u8>>)
    ensures
        answers(
            r,
            if encode_utf8(value@).len() <= u32::MAX {
                Ok(spec_string(value@))
            } else {
                Err(system_error())
            },
        ),
{
    let mut out: Vec<u8> = Vec::new();
    match put_string(&mut out, value) {
        Ok(()) => {
            assert(out@ =~= spec_string(value@));
            Ok(out)
        },
        Err(_) => Err(RPCError::Accepted(AcceptedStatusError::SystemError)),
    }
}

/// Registers a binding where its key has none, and answers whether it did.
pub fn set(state: &mut Registry, key: ProgramKey, val: ProgramDescription) -> (r: RPCResult<
    Vec<u8>,
>)
    requires
        old(state).well_formed(),
    ensures
        final(state).well_formed(),
        final(state)@ == spec_set(old(state)@, key@, val@).0,
        answers(r, spec_set(old(state)@, key@, val@).1),
{
    let inserted = state.insert_if_absent(key, val);
    serialize_bool(inserted)
}

/// What a request does: the registry then, and the outcome. `now` is the
/// time in seconds since the epoch, where the clock gave one.
pub open spec fn spec_process_request(
    request: RpcRequestView,
    entries: Seq<EntryView>,
    net_config: Seq<NetConfigEntryView>,
    now: Option<u64>,
) -> (Seq<EntryView>, Result<Seq<u8>, ProcessError>) {
    match request {
        RpcRequestView::V2(request) => portmapper::spec_process_request(
            request,
            entries,
            net_config,
        ),
        RpcRequestView::V3(request) => rpcbind::spec_process_request(request, entries, now),
        RpcRequestView::V4(request) => rpcbind::spec_process_request(request, entries, now),
    }
}

/// Handles a request at a given time: a request of version 2 by the port
/// mapper's procedures, one of version 3 or 4 by rpcbind's.
pub fn process_request_at(
    request: &RpcRequest,
    state: &mut Registry,
    net_config: &[NetConfigEntry],
    now: Option<u64>,
) -> (r: RequestResult)
    requires
        old(state).well_formed(),
    ensures
        final(state).well_formed(),
        final(state)@ == spec_process_request(
            request@,
            old(state)@,
            NetConfigEntry::views(net_config@),
            now,
        ).0,
        outcome(
            r,
            spec_process_request(
                request@,
                old(state)@,
                NetConfigEntry::views(net_config@),
                now,
            ).1,
        ),
{
    match request {
        RpcRequest::V2(port_mapper_request) => portmapper::process_request(
            port_mapper_request,
            state,
            net_config,
        ),
        RpcRequest::V3(rpc_bind_request) => rpcbind::process_request_at(
            rpc_bind_request,
            state,
            now,
        ),
        RpcRequest::V4(rpc_bind_request) => rpcbind::process_request_at(
            rpc_bind_request,
            state,
            now,
        ),
    }
}

/// Whether a request can change the registry: Set and Unset can, in every
/// version.
pub open spec fn spec_mutates(request: RpcRequestView) -> bool {
    match request {
        RpcRequestView::V2(request) => portmapper::spec_mutates(request),
        RpcRequestView::V3(request) => rpcbind::spec_mutates(request),
        RpcRequestView::V4(request) => rpcbind::spec_mutates(request),
    }
}

/// A request that cannot change the registry leaves it as it is, so it can
/// be handled while others read the registry too.
pub proof fn lemma_query_changes_nothing(
    request: RpcRequestView,
    entries: Seq<EntryView>,
    net_config: Seq<NetConfigEntryView>,
    now: Option<u64>,
)
    requires
        !spec_mutates(request),
    ensures
        spec_process_request(request, entries, net_config, now).0 == entries,
{
}

/// Handles a request that only reads the registry, at a given time; `None`
/// for a request that can change it.
pub fn process_query_at(
    request: &RpcRequest,
    state: &Registry,
    net_config: &[NetConfigEntry],
    now: Option<u64>,
) -> (r: Option<RequestResult>)
    ensures
        spec_mutates(request@) <==> r is None,
        r matches Some(result) ==> outcome(
            result,
            spec_process_request(request@, state@, NetConfigEntry::views(net_config@), now).1,
        ),
{
    match request {
        RpcRequest::V2(port_mapper_request) => portmapper::process_query(
            port_mapper_request,
            state,
            net_config,
        ),
        RpcRequest::V3(rpc_bind_request) => rpcbind::process_query_at(
            rpc_bind_request,
            state,
            now,
        ),
        RpcRequest::V4(rpc_bind_request) => rpcbind::process_query_at(
            rpc_bind_request,
            state,
            now,
        ),
    }
}

/// Handles a request that only reads the registry; `None` for a request
/// that can change it. The clock is read where the request asks for the
/// time.
pub fn process_query(request: &RpcRequest, state: &Registry, net_config: &[NetConfigEntry]) -> (r:
    Option<RequestResult>)
    ensures
        spec_mutates(request@) <==> r is None,
        r matches Some(result) ==> exists|now: Option<u64>|
            outcome(
                result,
                (#[trigger] spec_process_request(
                    request@,
                    state@,
                    NetConfigEntry::views(net_config@),
                    now,
                )).1,
            ),
{
    let asks_time = match request {
        RpcRequest::V2(_) => false,
        RpcRequest::V3(rpc_bind_request) => rpc_bind_request.asks_time(),
        RpcRequest::V4(rpc_bind_request) => rpc_bind_request.asks_time(),
    };
    let now = if asks_time {
        rpcbind::seconds_since_epoch()
    } else {
        None
    };
    process_query_at(request, state, net_config, now)
}

/// Handles a request. The clock is read where the request asks for the
/// time, so the outcome is that of [`process_request_at`] at some time.
pub fn process_request(request: &RpcRequest, state: &mut Registry, net_config: &[NetConfigEntry]) -> (r:
    RequestResult)
    requires
        old(state).well_formed(),
    ensures
        final(state).well_formed(),
        exists|now: Option<u64>|
            final(state)@ == (#[trigger] spec_process_request(
                request@,
                old(state)@,
                NetConfigEntry::views(net_config@),
                now,
            )).0 && outcome(
                r,
                spec_process_request(
                    request@,
                    old(state)@,
                    NetConfigEntry::views(net_config@),
                    now,
                ).1,
            ),
{
    let asks_time = match request {
        RpcRequest::V2(_) => false,
        RpcRequest::V3(rpc_bind_request) => rpc_bind_request.asks_time(),
        RpcRequest::V4(rpc_bind_request) => rpc_bind_request.asks_time(),
    };
    let now = if asks_time {
        rpcbind::seconds_since_epoch()
    } else {
        None
    };
    process_request_at(request, state, net_config, now)
}

} // verus!
