//! A port-mapping / RPC-binding registry: the protocol engine of an ONC RPC
//! portmapper (version 2) and rpcbind (versions 3 and 4) service.
//!
//! RPC servers advertise "program P in version V on transport N is reachable
//! at address A", and clients resolve such a triple back into an address.
//!
//! - [`xdr`] is the wire format of values, and [`xdr_types`] the structures
//!   of the two protocols laid out in it.
//! - [`envelope`] takes calls out of messages and puts replies into them.
//! - [`request`] reads the request that a call holds.
//! - [`state`] is the registry of bindings, [`universal_address`] the text
//!   form of addresses, and [`netconfig`] the network configuration.
//! - [`process_request`] holds the procedures.
//! - [`connection`] decides, message by message, what a connection does
//!   next.
//!
//! Every function states in its contract what it returns and changes, and
//! is verified against it; sockets, locks and the clock of the process are
//! left to the caller.

pub mod connection;
pub mod envelope;
pub mod error;
pub mod netconfig;
pub mod process_request;
pub mod request;
pub mod state;
pub mod universal_address;
pub mod xdr;
pub mod xdr_types;

pub use error::{accepted_status_error, RpcBindResult};
