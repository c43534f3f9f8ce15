//! The requests of the port mapper, version 2 of the program.

use vstd::prelude::*;

use crate::envelope::RpcCallEnvelope;
use crate::error::{AcceptedStatusError, DecodeError, RpcBindResult};
use crate::request::{deserialize_call_args, deserialize_mapping};
use crate::xdr_types::port_mapper::{CallArgs, CallArgsView, Mapping};

verus! {

/// A request to the port mapper.
#[derive(Debug, PartialEq)]
pub enum PortMapperRequest {
    /// Do nothing.
    Null,
    /// Register a mapping.
    SetMapping(Mapping),
    /// Take the mappings of a program and version out.
    Unset(Mapping),
    /// Look the port of a mapping up.
    GetPort(Mapping),
    /// List every mapping.
    Dump,
    /// Call a procedure of a registered program.
    CallIt(CallArgs),
}

/// What a request to the port mapper holds.
pub enum PortMapperRequestView {
    /// Do nothing.
    Null,
    /// Register a mapping.
    SetMapping(Mapping),
    /// Take the mappings of a program and version out.
    Unset(Mapping),
    /// Look the port of a mapping up.
    GetPort(Mapping),
    /// List every mapping.
    Dump,
    /// Call a procedure of a registered program.
    CallIt(CallArgsView),
}

impl View for PortMapperRequest {
    type V = PortMapperRequestView;

    open spec fn view(&self) -> PortMapperRequestView {
        match *self {
            PortMapperRequest::Null => PortMapperRequestView::Null,
            PortMapperRequest::SetMapping(mapping) => PortMapperRequestView::SetMapping(mapping),
            PortMapperRequest::Unset(mapping) => PortMapperRequestView::Unset(mapping),
            PortMapperRequest::GetPort(mapping) => PortMapperRequestView::GetPort(mapping),
            PortMapperRequest::Dump => PortMapperRequestView::Dump,
            PortMapperRequest::CallIt(args) => PortMapperRequestView::CallIt(args@),
        }
    }
}

impl PortMapperRequest {
    /// The mapping that a payload holds, for a procedure that takes one.
    pub open spec fn spec_mapping(payload: Seq<u8>) -> Result<Mapping, DecodeError> {
        match Mapping::parse(payload) {
            Ok((mapping, _)) => Ok(mapping),
            Err(e) => Err(DecodeError::XDRDeserialization(e)),
        }
    }

    /// The request that a procedure number and a payload stand for:
    /// 0 is Null, 1 SetMapping, 2 Unset, 3 GetPort, 4 Dump and 5 CallIt. Null and
    /// Dump take no argument; the payload is not looked at.
    pub open spec fn spec_decode(procedure: u32, payload: Seq<u8>) -> Result<
        PortMapperRequestView,
        DecodeError,
    > {
        if procedure == 0 {
            Ok(PortMapperRequestView::Null)
        } else if procedure == 1 {
            match PortMapperRequest::spec_mapping(payload) {
                Ok(mapping) => Ok(PortMapperRequestView::SetMapping(mapping)),
                Err(e) => Err(e),
            }
        } else if procedure == 2 {
            match PortMapperRequest::spec_mapping(payload) {
                Ok(mapping) => Ok(PortMapperRequestView::Unset(mapping)),
                Err(e) => Err(e),
            }
        } else if procedure == 3 {
            match PortMapperRequest::spec_mapping(payload) {
                Ok(mapping) => Ok(PortMapperRequestView::GetPort(mapping)),
                Err(e) => Err(e),
            }
        } else if procedure == 4 {
            Ok(PortMapperRequestView::Dump)
        } else if procedure == 5 {
            match CallArgs::parse(payload) {
                Ok((args, _)) => Ok(PortMapperRequestView::CallIt(args)),
                Err(e) => Err(DecodeError::XDRDeserialization(e)),
            }
        } else {
            Err(DecodeError::UnknownProcedure(procedure))
        }
    }

    /// The request of a call to version 2, or why the call holds none.
    pub fn decode(value: &RpcCallEnvelope) -> (r: Result<Self, DecodeError>)
        ensures
            match PortMapperRequest::spec_decode(value.procedure, value.payload@) {
                Ok(request) => r matches Ok(q) && q@ == request,
                Err(e) => r == Err::<PortMapperRequest, DecodeError>(e),
            },
    {
        let procedure = value.procedure;
        let payload = value.payload.as_slice();
        if procedure == 0 {
            Ok(PortMapperRequest::Null)
        } else if procedure == 1 {
            match deserialize_mapping(payload) {
                Ok(mapping) => Ok(PortMapperRequest::SetMapping(mapping)),
                Err(e) => Err(e),
            }
        } else if procedure == 2 {
            match deserialize_mapping(payload) {
                Ok(mapping) => Ok(PortMapperRequest::Unset(mapping)),
                Err(e) => Err(e),
            }
        } else if procedure == 3 {
            match deserialize_mapping(payload) {
                Ok(mapping) => Ok(PortMapperRequest::GetPort(mapping)),
                Err(e) => Err(e),
            }
        } else if procedure == 4 {
            Ok(PortMapperRequest::Dump)
        } else if procedure == 5 {
            match deserialize_call_args(payload) {
                Ok(args) => Ok(PortMapperRequest::CallIt(args)),
                Err(e) => Err(e),
            }
        } else {
            Err(DecodeError::UnknownProcedure(procedure))
        }
    }

    /// The request of a call to version 2, or the status that answers a call
    /// which holds none: an unavailable procedure for a number above 5, and
    /// garbage arguments for a payload that does not decode.
    pub fn from_body(value: &RpcCallEnvelope) -> (r: RpcBindResult<Self>)
        ensures
            match PortMapperRequest::spec_decode(value.procedure, value.payload@) {
                Ok(request) => r matches Ok(q) && q@ == request,
                Err(e) => r == Err::<PortMapperRequest, AcceptedStatusError>(e.spec_status()),
            },
    {
        match PortMapperRequest::decode(value) {
            Ok(request) => Ok(request),
            Err(e) => Err(e.status()),
        }
    }
}

} // verus!
