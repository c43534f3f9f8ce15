//! Requests: what a call asks for, read from its envelope. The version of
//! the program picks the grammar, and the procedure number picks the request
//! within it.

use vstd::prelude::*;

use crate::envelope::{RpcCallEnvelope, RpcCallEnvelopeView};
use crate::error::{AcceptedStatusError, DecodeError, RpcBindResult};
use crate::xdr_types::port_mapper::{CallArgs, Mapping};
use crate::xdr_types::rpcbind::RPCB;

mod port_mapper;
mod rpcbind;

pub use port_mapper::{PortMapperRequest, PortMapperRequestView};
pub use rpcbind::{NetBufView, RpcBindRequest, RpcBindRequestView};

verus! {

/// A request, under the version of the program that it was made in.
#[derive(Debug, PartialEq)]
pub enum RpcRequest {
    /// A request to the port mapper.
    V2(PortMapperRequest),
    /// A request to rpcbind in version 3.
    V3(RpcBindRequest),
    /// A request to rpcbind in version 4, which reads as version 3 does.
    V4(RpcBindRequest),
}

/// What a request holds.
pub enum RpcRequestView {
    /// A request to the port mapper.
    V2(PortMapperRequestView),
    /// A request to rpcbind in version 3.
    V3(RpcBindRequestView),
    /// A request to rpcbind in version 4.
    V4(RpcBindRequestView),
}

impl View for RpcRequest {
    type V = RpcRequestView;

    open spec fn view(&self) -> RpcRequestView {
        match *self {
            RpcRequest::V2(request) => RpcRequestView::V2(request@),
            RpcRequest::V3(request) => RpcRequestView::V3(request@),
            RpcRequest::V4(request) => RpcRequestView::V4(request@),
        }
    }
}

impl RpcRequest {
    /// The request of a call: version 2 is read as the port mapper's
    /// grammar, versions 3 and 4 as rpcbind's, and no other version is
    /// served, whatever the procedure.
    pub open spec fn spec_decode(call: RpcCallEnvelopeView) -> Result<RpcRequestView, DecodeError> {
        if call.program_version == 2 {
            match PortMapperRequest::spec_decode(call.procedure, call.payload) {
                Ok(request) => Ok(RpcRequestView::V2(request)),
                Err(e) => Err(e),
            }
        } else if call.program_version == 3 {
            match RpcBindRequest::spec_decode(call.procedure, call.payload) {
                Ok(request) => Ok(RpcRequestView::V3(request)),
                Err(e) => Err(e),
            }
        } else if call.program_version == 4 {
            match RpcBindRequest::spec_decode(call.procedure, call.payload) {
                Ok(request) => Ok(RpcRequestView::V4(request)),
                Err(e) => Err(e),
            }
        } else {
            Err(DecodeError::UnknownProgramVersion(call.program_version))
        }
    }

    /// The request of a call, or why the call holds none.
    pub fn decode(value: &RpcCallEnvelope) -> (r: Result<Self, DecodeError>)
        ensures
            match RpcRequest::spec_decode(value@) {
                Ok(request) => r matches Ok(q) && q@ == request,
                Err(e) => r == Err::<RpcRequest, DecodeError>(e),
            },
    {
        let version = value.program_version;
        if version == 2 {
            match PortMapperRequest::decode(value) {
                Ok(request) => Ok(RpcRequest::V2(request)),
                Err(e) => Err(e),
            }
        } else if version == 3 {
            match RpcBindRequest::decode(value) {
                Ok(request) => Ok(RpcRequest::V3(request)),
                Err(e) => Err(e),
            }
        } else if version == 4 {
            match RpcBindRequest::decode(value) {
                Ok(request) => Ok(RpcRequest::V4(request)),
                Err(e) => Err(e),
            }
        } else {
            Err(DecodeError::UnknownProgramVersion(version))
        }
    }

    /// The request of a call, or the status that answers a call which holds
    /// none: a mismatch with versions 2 to 4 for another version, an
    /// unavailable procedure for a number that the version does not have,
    /// and garbage arguments for a payload that does not decode.
    pub fn from_body(value: &RpcCallEnvelope) -> (r: RpcBindResult<Self>)
        ensures
            match RpcRequest::spec_decode(value@) {
                Ok(request) => r matches Ok(q) && q@ == request,
                Err(e) => r == Err::<RpcRequest, AcceptedStatusError>(e.spec_status()),
            },
    {
        match RpcRequest::decode(value) {
            Ok(request) => Ok(request),
            Err(e) => Err(e.status()),
        }
    }

    /// A call in a version other than 2, 3 and 4 is answered with a mismatch
    /// that names the versions 2 to 4, whatever its procedure and payload.
    pub proof fn lemma_version_routing(call: RpcCallEnvelopeView)
        requires
            call.program_version != 2,
            call.program_version != 3,
            call.program_version != 4,
        ensures
            RpcRequest::spec_decode(call) matches Err(e) && e.spec_status()
                == (AcceptedStatusError::ProgramMismatch { low: 2, high: 4 }),
    {
    }
}

/// Reads a mapping from the payload of a call. Bytes behind the mapping are
/// not looked at.
pub fn deserialize_mapping(payload: &[u8]) -> (r: Result<Mapping, DecodeError>)
    ensures
        match Mapping::parse(payload@) {
            Ok((mapping, _)) => r == Ok::<Mapping, DecodeError>(mapping),
            Err(e) => r == Err::<Mapping, DecodeError>(DecodeError::XDRDeserialization(e)),
        },
{
    assert(payload@.skip(0) =~= payload@);
    match Mapping::decode(payload, 0) {
        Ok((mapping, _)) => Ok(mapping),
        Err(e) => Err(DecodeError::XDRDeserialization(e)),
    }
}

/// Reads the arguments of an indirect call from the payload of a call.
pub fn deserialize_call_args(payload: &[u8]) -> (r: Result<CallArgs, DecodeError>)
    ensures
        match CallArgs::parse(payload@) {
            Ok((args, _)) => r matches Ok(a) && a@ == args,
            Err(e) => r == Err::<CallArgs, DecodeError>(DecodeError::XDRDeserialization(e)),
        },
{
    assert(payload@.skip(0) =~= payload@);
    match CallArgs::decode(payload, 0) {
        Ok((args, _)) => Ok(args),
        Err(e) => Err(DecodeError::XDRDeserialization(e)),
    }
}

/// Reads a binding from the payload of a call.
pub fn deserialize_rpcb(payload: &[u8]) -> (r: Result<RPCB, DecodeError>)
    ensures
        match RPCB::parse(payload@) {
            Ok((rpcb, _)) => r matches Ok(b) && b@ == rpcb,
            Err(e) => r == Err::<RPCB, DecodeError>(DecodeError::XDRDeserialization(e)),
        },
{
    assert(payload@.skip(0) =~= payload@);
    match RPCB::decode(payload, 0) {
        Ok((rpcb, _)) => Ok(rpcb),
        Err(e) => Err(DecodeError::XDRDeserialization(e)),
    }
}

} // verus!
