//! The requests of rpcbind, versions 3 and 4 of the program.

use vstd::prelude::*;

use crate::envelope::RpcCallEnvelope;
use crate::error::{AcceptedStatusError, DecodeError, RpcBindResult};
use crate::request::deserialize_rpcb;
use crate::xdr_types::port_mapper::CallArgsView;
use crate::xdr_types::rpcbind::{NetBuf, RmtCallArgs, RpcbView, RPCB};

verus! {

/// A request to rpcbind.
#[derive(Debug, PartialEq)]
pub enum RpcBindRequest {
    /// Register a binding.
    SetBinding(RPCB),
    /// Take bindings out.
    Unset(RPCB),
    /// Look the address of a binding up.
    GetAddr(RPCB),
    /// List every binding.
    Dump,
    /// Tell the time of the server.
    GetTime,
    /// Turn a universal address into a transport address.
    UADDR2TADDR(String),
    /// Turn a transport address into a universal address.
    TADDR2UADDR(NetBuf),
    /// Look the address of a binding up, for a version.
    GETVERSADDR(RPCB),
    /// Call a procedure of a registered program.
    Indirect(RmtCallArgs),
    /// List the addresses of a binding.
    GetAddrList(RPCB),
    /// Report statistics.
    GetStat,
}

/// What a transport address holds.
pub struct NetBufView {
    /// The size of the buffer.
    pub maxlen: u32,
    /// The bytes of the address.
    pub buf: Seq<u8>,
}

/// What a request to rpcbind holds.
pub enum RpcBindRequestView {
    /// Register a binding.
    SetBinding(RpcbView),
    /// Take bindings out.
    Unset(RpcbView),
    /// Look the address of a binding up.
    GetAddr(RpcbView),
    /// List every binding.
    Dump,
    /// Tell the time of the server.
    GetTime,
    /// Turn a universal address into a transport address.
    UADDR2TADDR(Seq<char>),
    /// Turn a transport address into a universal address.
    TADDR2UADDR(NetBufView),
    /// Look the address of a binding up, for a version.
    GETVERSADDR(RpcbView),
    /// Call a procedure of a registered program.
    Indirect(CallArgsView),
    /// List the addresses of a binding.
    GetAddrList(RpcbView),
    /// Report statistics.
    GetStat,
}

impl View for RpcBindRequest {
    type V = RpcBindRequestView;

    open spec fn view(&self) -> RpcBindRequestView {
        match *self {
            RpcBindRequest::SetBinding(rpcb) => RpcBindRequestView::SetBinding(rpcb@),
            RpcBindRequest::Unset(rpcb) => RpcBindRequestView::Unset(rpcb@),
            RpcBindRequest::GetAddr(rpcb) => RpcBindRequestView::GetAddr(rpcb@),
            RpcBindRequest::Dump => RpcBindRequestView::Dump,
            RpcBindRequest::GetTime => RpcBindRequestView::GetTime,
            RpcBindRequest::UADDR2TADDR(address) => RpcBindRequestView::UADDR2TADDR(address@),
            RpcBindRequest::TADDR2UADDR(address) => RpcBindRequestView::TADDR2UADDR(
                NetBufView { maxlen: address.maxlen, buf: address.buf@ },
            ),
            RpcBindRequest::GETVERSADDR(rpcb) => RpcBindRequestView::GETVERSADDR(rpcb@),
            RpcBindRequest::Indirect(args) => RpcBindRequestView::Indirect(
                CallArgsView { prog: args.prog, vers: args.vers, proc: args.proc, args: args.args@ },
            ),
            RpcBindRequest::GetAddrList(rpcb) => RpcBindRequestView::GetAddrList(rpcb@),
            RpcBindRequest::GetStat => RpcBindRequestView::GetStat,
        }
    }
}

impl RpcBindRequest {
    /// The binding that a payload holds, for a procedure that takes one.
    pub open spec fn spec_rpcb(payload: Seq<u8>) -> Result<RpcbView, DecodeError> {
        match RPCB::parse(payload) {
            Ok((rpcb, _)) => Ok(rpcb),
            Err(e) => Err(DecodeError::XDRDeserialization(e)),
        }
    }

    /// The request that a procedure number and a payload stand for:
    /// 1 is SetBinding, 2 Unset, 3 GetAddr, 4 Dump and 12 GetStat. Dump and GetStat
    /// take no argument; the payload is not looked at. No other number is
    /// served.
    pub open spec fn spec_decode(procedure: u32, payload: Seq<u8>) -> Result<
        RpcBindRequestView,
        DecodeError,
    > {
        if procedure == 1 {
            match RpcBindRequest::spec_rpcb(payload) {
                Ok(rpcb) => Ok(RpcBindRequestView::SetBinding(rpcb)),
                Err(e) => Err(e),
            }
        } else if procedure == 2 {
            match RpcBindRequest::spec_rpcb(payload) {
                Ok(rpcb) => Ok(RpcBindRequestView::Unset(rpcb)),
                Err(e) => Err(e),
            }
        } else if procedure == 3 {
            match RpcBindRequest::spec_rpcb(payload) {
                Ok(rpcb) => Ok(RpcBindRequestView::GetAddr(rpcb)),
                Err(e) => Err(e),
            }
        } else if procedure == 4 {
            Ok(RpcBindRequestView::Dump)
        } else if procedure == 12 {
            Ok(RpcBindRequestView::GetStat)
        } else {
            Err(DecodeError::UnknownProcedure(procedure))
        }
    }

    /// The request of a call to version 3 or 4, or why the call holds none.
    pub fn decode(value: &RpcCallEnvelope) -> (r: Result<Self, DecodeError>)
        ensures
            match RpcBindRequest::spec_decode(value.procedure, value.payload@) {
                Ok(request) => r matches Ok(q) && q@ == request,
                Err(e) => r == Err::<RpcBindRequest, DecodeError>(e),
            },
    {
        let procedure = value.procedure;
        let payload = value.payload.as_slice();
        if procedure == 1 {
            match deserialize_rpcb(payload) {
                Ok(rpcb) => Ok(RpcBindRequest::SetBinding(rpcb)),
                Err(e) => Err(e),
            }
        } else if procedure == 2 {
            match deserialize_rpcb(payload) {
                Ok(rpcb) => Ok(RpcBindRequest::Unset(rpcb)),
                Err(e) => Err(e),
            }
        } else if procedure == 3 {
            match deserialize_rpcb(payload) {
                Ok(rpcb) => Ok(RpcBindRequest::GetAddr(rpcb)),
                Err(e) => Err(e),
            }
        } else if procedure == 4 {
            Ok(RpcBindRequest::Dump)
        } else if procedure == 12 {
            Ok(RpcBindRequest::GetStat)
        } else {
            Err(DecodeError::UnknownProcedure(procedure))
        }
    }

    /// The request of a call to version 3 or 4, or the status that answers a
    /// call which holds none: an unavailable procedure for a number that is
    /// not served, and garbage arguments for a payload that does not decode.
    pub fn from_body(value: &RpcCallEnvelope) -> (r: RpcBindResult<Self>)
        ensures
            match RpcBindRequest::spec_decode(value.procedure, value.payload@) {
                Ok(request) => r matches Ok(q) && q@ == request,
                Err(e) => r == Err::<RpcBindRequest, AcceptedStatusError>(e.spec_status()),
            },
    {
        match RpcBindRequest::decode(value) {
            Ok(request) => Ok(request),
            Err(e) => Err(e.status()),
        }
    }
}

} // verus!
