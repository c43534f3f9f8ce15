//! The failures that a reply can report, and the reply bodies that carry
//! them.

use vstd::prelude::*;
use vstd::std_specs::convert::FromSpecImpl;

use crate::xdr::XdrError;

verus! {

/// The lowest program version that the service speaks.
pub const LOWEST_VERSION: u32 = 2;

/// The highest program version that the service speaks.
pub const HIGHEST_VERSION: u32 = 4;

/// A failure status of a call whose credentials were accepted.
#[derive(Clone, Copy, Debug, PartialEq, Eq, Structural)]
pub enum AcceptedStatusError {
    /// The program has no handler in this server.
    ProgramUnavailable,
    /// The program is served, but not in the version asked for.
    ProgramMismatch {
        /// The lowest version served.
        low: u32,
        /// The highest version served.
        high: u32,
    },
    /// The procedure number is not served.
    ProcedureUnavailable,
    /// The arguments could not be decoded, or were not acceptable.
    GarbageArgs,
    /// A failure inside the server that the request did not cause.
    SystemError,
}

/// The status of a call whose credentials were accepted: the encoded result
/// of the procedure, or a failure.
#[derive(Debug)]
pub enum AcceptedStatus {
    /// The call succeeded; the bytes are the encoded result.
    Success(Vec<u8>),
    /// See [`AcceptedStatusError::ProgramUnavailable`].
    ProgramUnavailable,
    /// See [`AcceptedStatusError::ProgramMismatch`].
    ProgramMismatch {
        /// The lowest version served.
        low: u32,
        /// The highest version served.
        high: u32,
    },
    /// See [`AcceptedStatusError::ProcedureUnavailable`].
    ProcedureUnavailable,
    /// See [`AcceptedStatusError::GarbageArgs`].
    GarbageArgs,
    /// See [`AcceptedStatusError::SystemError`].
    SystemError,
}

impl View for AcceptedStatus {
    type V = Result<Seq<u8>, AcceptedStatusError>;

    open spec fn view(&self) -> Result<Seq<u8>, AcceptedStatusError> {
        match *self {
            AcceptedStatus::Success(payload) => Ok(payload@),
            AcceptedStatus::ProgramUnavailable => Err(AcceptedStatusError::ProgramUnavailable),
            AcceptedStatus::ProgramMismatch { low, high } => Err(
                AcceptedStatusError::ProgramMismatch { low, high },
            ),
            AcceptedStatus::ProcedureUnavailable => Err(AcceptedStatusError::ProcedureUnavailable),
            AcceptedStatus::GarbageArgs => Err(AcceptedStatusError::GarbageArgs),
            AcceptedStatus::SystemError => Err(AcceptedStatusError::SystemError),
        }
    }
}

/// Why the credentials of a call were rejected.
#[derive(Clone, Copy, Debug, PartialEq, Eq, Structural)]
pub enum AuthError {
    /// No error.
    Success,
    /// The credentials were rejected.
    BadCredentials,
    /// The session has been invalidated.
    RejectedCredentials,
    /// The verifier was not acceptable.
    BadVerifier,
    /// The verifier was rejected or has expired.
    RejectedVerifier,
    /// The authentication scheme was rejected for security reasons.
    TooWeak,
    /// The response verifier is invalid.
    InvalidResponseVerifier,
    /// An unknown failure.
    Failed,
}

impl AuthError {
    /// The number that stands for this error on the wire.
    pub open spec fn spec_code(self) -> u32 {
        match self {
            AuthError::Success => 0,
            AuthError::BadCredentials => 1,
            AuthError::RejectedCredentials => 2,
            AuthError::BadVerifier => 3,
            AuthError::RejectedVerifier => 4,
            AuthError::TooWeak => 5,
            AuthError::InvalidResponseVerifier => 6,
            AuthError::Failed => 7,
        }
    }
}

/// The body of a reply. The verifier of an accepted reply is always "no
/// authentication", so it is not held here.
#[derive(Debug)]
pub enum ReplyBody {
    /// The credentials were accepted.
    Accepted(AcceptedStatus),
    /// The credentials were rejected.
    Denied(AuthError),
}

/// What a reply body says, with the payload as a sequence of bytes.
pub enum ReplyBodyView {
    /// The credentials were accepted.
    Accepted(Result<Seq<u8>, AcceptedStatusError>),
    /// The credentials were rejected.
    Denied(AuthError),
}

impl View for ReplyBody {
    type V = ReplyBodyView;

    open spec fn view(&self) -> ReplyBodyView {
        match *self {
            ReplyBody::Accepted(status) => ReplyBodyView::Accepted(status@),
            ReplyBody::Denied(rejected) => ReplyBodyView::Denied(rejected),
        }
    }
}

/// A failure that a reply can report: every kind that goes on the wire, and
/// none that is a success.
#[derive(Clone, Copy, Debug, PartialEq, Eq, Structural)]
pub enum RPCError {
    /// The call was accepted and then failed.
    Accepted(AcceptedStatusError),
    /// The call was rejected: its credentials were not accepted.
    Denied(AuthError),
}

/// The result of work that can fail with an accepted-status failure.
pub type RpcBindResult<T> = Result<T, AcceptedStatusError>;

/// The result of work that can fail with any failure a reply can report.
pub type RPCResult<T> = Result<T, RPCError>;

/// Why a call could not be turned into a request.
#[derive(Clone, Copy, Debug, PartialEq, Eq, Structural)]
pub enum DecodeError {
    /// The payload is not the encoding of the procedure's argument.
    XDRDeserialization(XdrError),
    /// The procedure number is not one of the program version.
    UnknownProcedure(u32),
    /// The program version is not served.
    UnknownProgramVersion(u32),
}

impl DecodeError {
    /// The status that reports this error to the caller.
    pub open spec fn spec_status(self) -> AcceptedStatusError {
        match self {
            DecodeError::XDRDeserialization(_) => AcceptedStatusError::GarbageArgs,
            DecodeError::UnknownProcedure(_) => AcceptedStatusError::ProcedureUnavailable,
            DecodeError::UnknownProgramVersion(_) => AcceptedStatusError::ProgramMismatch {
                low: LOWEST_VERSION,
                high: HIGHEST_VERSION,
            },
        }
    }

    /// The status that reports this error to the caller: a payload that does
    /// not decode is garbage, an unknown procedure is unavailable, and an
    /// unknown version is a mismatch with the versions served.
    pub fn status(&self) -> (r: AcceptedStatusError)
        ensures
            r == self.spec_status(),
    {
        match self {
            DecodeError::XDRDeserialization(_) => AcceptedStatusError::GarbageArgs,
            DecodeError::UnknownProcedure(_) => AcceptedStatusError::ProcedureUnavailable,
            DecodeError::UnknownProgramVersion(_) => AcceptedStatusError::ProgramMismatch {
                low: LOWEST_VERSION,
                high: HIGHEST_VERSION,
            },
        }
    }
}

/// The failure that an accepted status reports. A success reports none, so
/// it is not taken.
pub fn accepted_status_error(to_convert: AcceptedStatus) -> (r: AcceptedStatusError)
    requires
        !(to_convert is Success),
    ensures
        to_convert@ == Err::<Seq<u8>, AcceptedStatusError>(r),
{
    match to_convert {
        AcceptedStatus::Success(_) => {
            proof {
                assert(false);
            }
            AcceptedStatusError::SystemError
        },
        AcceptedStatus::ProgramUnavailable => AcceptedStatusError::ProgramUnavailable,
        AcceptedStatus::ProgramMismatch { low, high } => AcceptedStatusError::ProgramMismatch {
            low,
            high,
        },
        AcceptedStatus::ProcedureUnavailable => AcceptedStatusError::ProcedureUnavailable,
        AcceptedStatus::GarbageArgs => AcceptedStatusError::GarbageArgs,
        AcceptedStatus::SystemError => AcceptedStatusError::SystemError,
    }
}

/// The accepted status that reports a failure.
pub open spec fn spec_convert_accepted_status(from: AcceptedStatusError) -> AcceptedStatus {
    match from {
        AcceptedStatusError::ProgramUnavailable => AcceptedStatus::ProgramUnavailable,
        AcceptedStatusError::ProgramMismatch { low, high } => AcceptedStatus::ProgramMismatch {
            low,
            high,
        },
        AcceptedStatusError::ProcedureUnavailable => AcceptedStatus::ProcedureUnavailable,
        AcceptedStatusError::GarbageArgs => AcceptedStatus::GarbageArgs,
        AcceptedStatusError::SystemError => AcceptedStatus::SystemError,
    }
}

/// The accepted status that reports a failure.
pub fn convert_accepted_status(from: &AcceptedStatusError) -> (r: AcceptedStatus)
    ensures
        r == spec_convert_accepted_status(*from),
        r@ == Err::<Seq<u8>, AcceptedStatusError>(*from),
{
    match from {
        AcceptedStatusError::ProgramUnavailable => AcceptedStatus::ProgramUnavailable,
        AcceptedStatusError::ProgramMismatch { low, high } => AcceptedStatus::ProgramMismatch {
            low: *low,
            high: *high,
        },
        AcceptedStatusError::ProcedureUnavailable => AcceptedStatus::ProcedureUnavailable,
        AcceptedStatusError::GarbageArgs => AcceptedStatus::GarbageArgs,
        AcceptedStatusError::SystemError => AcceptedStatus::SystemError,
    }
}

impl From<AuthError> for RPCError {
    fn from(value: AuthError) -> (r: Self) {
        RPCError::Denied(value)
    }
}

impl FromSpecImpl<AuthError> for RPCError {
    open spec fn obeys_from_spec() -> bool {
        true
    }

    open spec fn from_spec(value: AuthError) -> Self {
        RPCError::Denied(value)
    }
}

impl From<AcceptedStatusError> for RPCError {
    fn from(to_convert: AcceptedStatusError) -> (r: Self) {
        RPCError::Accepted(to_convert)
    }
}

impl FromSpecImpl<AcceptedStatusError> for RPCError {
    open spec fn obeys_from_spec() -> bool {
        true
    }

    open spec fn from_spec(to_convert: AcceptedStatusError) -> Self {
        RPCError::Accepted(to_convert)
    }
}

impl From<RPCError> for ReplyBody {
    fn from(value: RPCError) -> (r: Self) {
        match value {
            RPCError::Accepted(status) => ReplyBody::Accepted(convert_accepted_status(&status)),
            RPCError::Denied(error) => ReplyBody::Denied(error),
        }
    }
}

impl FromSpecImpl<RPCError> for ReplyBody {
    open spec fn obeys_from_spec() -> bool {
        true
    }

    open spec fn from_spec(value: RPCError) -> Self {
        match value {
            RPCError::Accepted(status) => ReplyBody::Accepted(spec_convert_accepted_status(status)),
            RPCError::Denied(error) => ReplyBody::Denied(error),
        }
    }
}

impl RPCError {
    /// What the reply body that carries this failure says.
    pub open spec fn spec_reply_body(self) -> ReplyBodyView {
        match self {
            RPCError::Accepted(status) => ReplyBodyView::Accepted(Err(status)),
            RPCError::Denied(rejected) => ReplyBodyView::Denied(rejected),
        }
    }

    /// The reply body that carries this failure.
    pub fn reply_body(self) -> (r: ReplyBody)
        ensures
            r@ == self.spec_reply_body(),
    {
        ReplyBody::from(self)
    }
}

} // verus!
