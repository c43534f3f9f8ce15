//! The procedures of rpcbind, versions 3 and 4 of the program.

use vstd::prelude::*;
use vstd::utf8::{decode_utf8, encode_utf8};

use crate::error::{AcceptedStatusError, RPCError, RPCResult};
use crate::process_request::{
    answers, garbage_args, handled, outcome, procedure_unavailable, serialize_bool,
    serialize_string, serialize_u32, spec_set, system_error, ProcessError, RequestResult,
};
use crate::request::{RpcBindRequest, RpcBindRequestView};
use crate::state::{
    make_rpcb, spec_lookup, spec_make_rpcb, spec_remove, spec_remove_matching, EntryView,
    ProgramDescription, ProgramDescriptionView, ProgramKey, Registry,
};
use crate::universal_address::{
    decode_universal_address, spec_decode_universal_address, spec_universal_address,
};
use crate::xdr::{put_u32, spec_bool, spec_nodes, spec_string, spec_u32};
use crate::xdr_types::rpcbind::{RpcbView, RPCB};

verus! {

/// The owner that is stored for the owner of a binding record: none for the
/// empty text.
pub open spec fn spec_owner(owner: Seq<char>) -> Option<Seq<char>> {
    if owner.len() == 0 {
        None
    } else {
        Some(owner)
    }
}

/// Set: a binding whose address is no universal address is garbage; any
/// other is registered where its key has no binding.
pub open spec fn spec_set_binding(entries: Seq<EntryView>, rpcb: RpcbView) -> (
    Seq<EntryView>,
    Result<Seq<u8>, RPCError>,
) {
    match spec_decode_universal_address(encode_utf8(rpcb.r_addr)) {
        None => (entries, Err(garbage_args())),
        Some(addr) => spec_set(
            entries,
            ProgramKey::spec_from_rpcb(rpcb),
            ProgramDescriptionView { addr, owner: spec_owner(rpcb.r_owner) },
        ),
    }
}

/// The registry after Unset: without a network identifier, every binding of
/// the program and version goes; with one, the binding under the key.
pub open spec fn spec_unset_entries(entries: Seq<EntryView>, rpcb: RpcbView) -> Seq<EntryView> {
    if rpcb.r_netid.len() == 0 {
        spec_remove_matching(entries, rpcb.r_prog, rpcb.r_vers)
    } else {
        spec_remove(entries, ProgramKey::spec_from_rpcb(rpcb))
    }
}

/// Unset: the registry then, and the answer, which says whether a binding
/// went.
pub open spec fn spec_unset(entries: Seq<EntryView>, rpcb: RpcbView) -> (
    Seq<EntryView>,
    Result<Seq<u8>, RPCError>,
) {
    let after = spec_unset_entries(entries, rpcb);
    (after, Ok(spec_bool(after.len() < entries.len())))
}

/// GetAddr: the universal address of the binding under the key, or the
/// empty text where there is none.
pub open spec fn spec_get_addr(entries: Seq<EntryView>, rpcb: RpcbView) -> Result<
    Seq<u8>,
    RPCError,
> {
    match spec_lookup(entries, ProgramKey::spec_from_rpcb(rpcb)) {
        Some(value) => Ok(spec_string(decode_utf8(spec_universal_address(value.addr)))),
        None => Ok(spec_string(Seq::empty())),
    }
}

/// The binding records that a dump lists: one for each binding, in the
/// order of the registry.
pub open spec fn spec_dump_bindings(entries: Seq<EntryView>) -> Seq<RpcbView> {
    Seq::new(entries.len(), |i: int| spec_make_rpcb(entries[i]))
}

/// Whether every binding record of a dump can be encoded.
pub open spec fn spec_dumpable(entries: Seq<EntryView>) -> bool {
    forall|i: int| 0 <= i < entries.len() ==> RPCB::spec_encodable(#[trigger] spec_make_rpcb(entries[i]))
}

/// Dump: the list of the binding records, or a system error where one of
/// them cannot be encoded.
pub open spec fn spec_dump(entries: Seq<EntryView>) -> Result<Seq<u8>, RPCError> {
    if spec_dumpable(entries) {
        Ok(RPCB::spec_encode_list(spec_dump_bindings(entries)))
    } else {
        Err(system_error())
    }
}

/// GetTime: the seconds since the epoch as a word, truncated to their low
/// 32 bits, or a system error where the clock gave none.
pub open spec fn spec_get_time(now: Option<u64>) -> Result<Seq<u8>, RPCError> {
    match now {
        Some(seconds) => Ok(spec_u32((seconds % 0x1_0000_0000) as u32)),
        None => Err(system_error()),
    }
}

/// What a request to rpcbind does: the registry then, and the outcome.
/// Statistics are never given.
pub open spec fn spec_process_request(
    request: RpcBindRequestView,
    entries: Seq<EntryView>,
    now: Option<u64>,
) -> (Seq<EntryView>, Result<Seq<u8>, ProcessError>) {
    match request {
        RpcBindRequestView::SetBinding(rpcb) => (
            spec_set_binding(entries, rpcb).0,
            handled(spec_set_binding(entries, rpcb).1),
        ),
        RpcBindRequestView::Unset(rpcb) => (
            spec_unset(entries, rpcb).0,
            handled(spec_unset(entries, rpcb).1),
        ),
        RpcBindRequestView::GetAddr(rpcb) => (entries, handled(spec_get_addr(entries, rpcb))),
        RpcBindRequestView::Dump => (entries, handled(spec_dump(entries))),
        RpcBindRequestView::GetTime => (entries, handled(spec_get_time(now))),
        RpcBindRequestView::GetStat => (entries, Err(ProcessError::Reply(procedure_unavailable()))),
        _ => (entries, Err(ProcessError::NotYetImplemented)),
    }
}

/// Setting a binding twice: the second call answers "false" and changes
/// nothing.
pub proof fn lemma_set_twice(entries: Seq<EntryView>, first: RpcbView, second: RpcbView)
    requires
        ProgramKey::spec_from_rpcb(first) == ProgramKey::spec_from_rpcb(second),
        spec_decode_universal_address(encode_utf8(first.r_addr)) is Some,
        spec_decode_universal_address(encode_utf8(second.r_addr)) is Some,
    ensures
        ({
            let once = spec_set_binding(entries, first);
            let twice = spec_set_binding(once.0, second);
            twice.0 == once.0 && twice.1 == Ok::<Seq<u8>, RPCError>(spec_bool(false))
        }),
{
    crate::state::lemma_insert_twice(
        entries,
        ProgramKey::spec_from_rpcb(first),
        ProgramDescriptionView {
            addr: spec_decode_universal_address(encode_utf8(first.r_addr))->0,
            owner: spec_owner(first.r_owner),
        },
        ProgramDescriptionView {
            addr: spec_decode_universal_address(encode_utf8(second.r_addr))->0,
            owner: spec_owner(second.r_owner),
        },
    );
}

/// The scope of Unset. Of two bindings of one program and version on two
/// transports, an Unset without a network identifier takes both out, and an
/// Unset with the network identifier of the first takes the first out and
/// leaves the second; both answer "true".
pub proof fn lemma_unset_scope(first: EntryView, second: EntryView, rpcb: RpcbView)
    requires
        first.0.program == second.0.program,
        first.0.version == second.0.version,
        first.0.net_id != second.0.net_id,
        rpcb.r_prog == first.0.program,
        rpcb.r_vers == first.0.version,
    ensures
        rpcb.r_netid.len() == 0 ==> spec_unset(seq![first, second], rpcb) == (
            Seq::<EntryView>::empty(),
            Ok::<Seq<u8>, RPCError>(spec_bool(true)),
        ),
        rpcb.r_netid.len() > 0 && rpcb.r_netid == first.0.net_id ==> spec_unset(
            seq![first, second],
            rpcb,
        ) == (seq![second], Ok::<Seq<u8>, RPCError>(spec_bool(true))),
{
    crate::state::lemma_remove_scope(first, second);
    if rpcb.r_netid.len() > 0 && rpcb.r_netid == first.0.net_id {
        assert(ProgramKey::spec_from_rpcb(rpcb) == first.0);
    }
}

/// The dump of an empty registry is the terminator alone, not a failure and
/// not a present node.
pub proof fn lemma_dump_empty()
    ensures
        spec_dump(Seq::<EntryView>::empty()) == Ok::<Seq<u8>, RPCError>(spec_u32(0)),
{
    assert(spec_dump_bindings(Seq::<EntryView>::empty()) =~= Seq::<RpcbView>::empty());
    crate::xdr::lemma_list_empty(RPCB::spec_encoding());
}

/// GetAddr on a key without a binding answers the empty text.
pub proof fn lemma_get_addr_miss(entries: Seq<EntryView>, rpcb: RpcbView)
    requires
        spec_lookup(entries, ProgramKey::spec_from_rpcb(rpcb)) is None,
    ensures
        spec_get_addr(entries, rpcb) == Ok::<Seq<u8>, RPCError>(spec_string(Seq::empty())),
{
}

impl RpcBindRequest {
    /// Whether the request asks for the time.
    pub fn asks_time(&self) -> (r: bool)
        ensures
            r == (self@ is GetTime),
    {
        match self {
            RpcBindRequest::GetTime => true,
            _ => false,
        }
    }
}

/// A point in time, as the standard library measures it.
#[verifier::external_type_specification]
#[verifier::external_body]
pub struct ExSystemTime(std::time::SystemTime);

/// The time that the standard library's `SystemTime::now` gives.
#[verifier::external_body]
fn system_time_now() -> std::time::SystemTime {
    std::time::SystemTime::now()
}

/// What the standard library's `SystemTime::duration_since` gives for the
/// time that has passed since the epoch: none where `time` lies before it.
#[verifier::external_body]
fn duration_since_epoch(time: &std::time::SystemTime) -> Option<std::time::Duration> {
    time.duration_since(std::time::UNIX_EPOCH).ok()
}

/// The whole seconds of a duration, as `Duration::as_secs` gives them.
#[verifier::external_body]
fn duration_as_secs(duration: &std::time::Duration) -> u64 {
    duration.as_secs()
}

/// The whole seconds that have passed since the epoch, where the clock does
/// not lie before it.
pub fn seconds_since_epoch() -> Option<u64> {
    let time = system_time_now();
    match duration_since_epoch(&time) {
        Some(duration) => Some(duration_as_secs(&duration)),
        None => None,
    }
}

/// Handles a request to rpcbind at a given time.
pub fn process_request_at(request: &RpcBindRequest, state: &mut Registry, now: Option<u64>) -> (r:
    RequestResult)
    requires
        old(state).well_formed(),
    ensures
        final(state).well_formed(),
        final(state)@ == spec_process_request(request@, old(state)@, now).0,
        outcome(r, spec_process_request(request@, old(state)@, now).1),
{
    let result = match request {
        RpcBindRequest::SetBinding(rpcb) => set(state, rpcb),
        RpcBindRequest::Unset(rpcb) => unset(state, rpcb),
        RpcBindRequest::GetAddr(rpcb) => get_addr(rpcb, state),
        RpcBindRequest::Dump => dump(state),
        RpcBindRequest::GetTime => get_time(now),
        RpcBindRequest::GetStat => Err(RPCError::Accepted(AcceptedStatusError::ProcedureUnavailable)),
        _ => {
            return Err(ProcessError::NotYetImplemented);
        },
    };
    match result {
        Ok(bytes) => Ok(bytes),
        Err(e) => Err(ProcessError::Reply(e)),
    }
}

/// Handles a request to rpcbind, reading the clock where the request asks
/// for the time.
pub fn process_request(request: &RpcBindRequest, state: &mut Registry) -> (r: RequestResult)
    requires
        old(state).well_formed(),
    ensures
        final(state).well_formed(),
        exists|now: Option<u64>|
            final(state)@ == (#[trigger] spec_process_request(request@, old(state)@, now)).0
                && outcome(r, spec_process_request(request@, old(state)@, now).1),
{
    let now = if request.asks_time() {
        seconds_since_epoch()
    } else {
        None
    };
    process_request_at(request, state, now)
}

/// Whether a request to rpcbind can change the registry.
pub open spec fn spec_mutates(request: RpcBindRequestView) -> bool {
    request is SetBinding || request is Unset
}

/// A request that cannot change the registry leaves it as it is.
pub proof fn lemma_query_changes_nothing(
    request: RpcBindRequestView,
    entries: Seq<EntryView>,
    now: Option<u64>,
)
    requires
        !spec_mutates(request),
    ensures
        spec_process_request(request, entries, now).0 == entries,
{
}

/// Handles a request to rpcbind that only reads the registry, at a given
/// time; `None` for a request that can change it.
pub fn process_query_at(request: &RpcBindRequest, state: &Registry, now: Option<u64>) -> (r: Option<
    RequestResult,
>)
    ensures
        spec_mutates(request@) <==> r is None,
        r matches Some(result) ==> outcome(result, spec_process_request(request@, state@, now).1),
{
    let result = match request {
        RpcBindRequest::SetBinding(_) => {
            return None;
        },
        RpcBindRequest::Unset(_) => {
            return None;
        },
        RpcBindRequest::GetAddr(rpcb) => get_addr(rpcb, state),
        RpcBindRequest::Dump => dump(state),
        RpcBindRequest::GetTime => get_time(now),
        RpcBindRequest::GetStat => Err(RPCError::Accepted(AcceptedStatusError::ProcedureUnavailable)),
        _ => {
            return Some(Err(ProcessError::NotYetImplemented));
        },
    };
    match result {
        Ok(bytes) => Some(Ok(bytes)),
        Err(e) => Some(Err(ProcessError::Reply(e))),
    }
}

/// Set: registers a binding where its key has none.
pub fn set(state: &mut Registry, rpcb: &RPCB) -> (r: RPCResult<Vec<u8>>)
    requires
        old(state).well_formed(),
    ensures
        final(state).well_formed(),
        final(state)@ == spec_set_binding(old(state)@, rpcb@).0,
        answers(r, spec_set_binding(old(state)@, rpcb@).1),
{
    let key = ProgramKey::from_rpcb(rpcb);
    let addr = match decode_universal_address(rpcb.r_addr.as_str()) {
        Ok(addr) => addr,
        Err(_) => {
            return Err(RPCError::Accepted(AcceptedStatusError::GarbageArgs));
        },
    };
    let owner = if rpcb.r_owner.as_str().is_empty() {
        None
    } else {
        Some(rpcb.r_owner.clone())
    };
    let val = ProgramDescription { addr, owner };
    crate::process_request::set(state, key, val)
}

/// Unset: takes the bindings that the record names out, and answers whether
/// there was one.
pub fn unset(state: &mut Registry, rpcb: &RPCB) -> (r: RPCResult<Vec<u8>>)
    requires
        old(state).well_formed(),
    ensures
        final(state).well_formed(),
        final(state)@ == spec_unset(old(state)@, rpcb@).0,
        answers(r, spec_unset(old(state)@, rpcb@).1),
{
    let removed = if rpcb.r_netid.as_str().is_empty() {
        state.remove_matching(rpcb.r_prog, rpcb.r_vers) > 0
    } else {
        let key = ProgramKey::from_rpcb(rpcb);
        proof {
            crate::state::lemma_remove_len(state@, key@);
        }
        state.remove(&key).is_some()
    };
    serialize_bool(removed)
}

/// GetAddr: the universal address of a binding, or the empty text where it
/// is not registered.
pub fn get_addr(rpcb: &RPCB, state: &Registry) -> (r: RPCResult<Vec<u8>>)
    ensures
        answers(r, spec_get_addr(state@, rpcb@)),
{
    let key = ProgramKey::from_rpcb(rpcb);
    let text = match state.get(&key) {
        Some(entry) => {
            let address = entry.universal_address();
            proof {
                crate::universal_address::lemma_universal_address_ascii(entry.addr);
                vstd::utf8::encode_utf8_decode_utf8(address@);
            }
            address
        },
        None => String::new(),
    };
    proof {
        assert(encode_utf8(Seq::<char>::empty()) =~= Seq::<u8>::empty()) by {
            reveal_with_fuel(vstd::utf8::encode_utf8, 1);
        }
    }
    serialize_string(text.as_str())
}

/// Dump: the list of the binding records, written as the registry is
/// walked.
pub fn dump(state: &Registry) -> (r: RPCResult<Vec<u8>>)
    ensures
        answers(r, spec_dump(state@)),
{
    let ghost encoding = RPCB::spec_encoding();
    let ghost records = spec_dump_bindings(state@);
    let mut out: Vec<u8> = Vec::new();
    let n = state.len();
    let mut i: usize = 0;
    assert(records.take(0) =~= Seq::<RpcbView>::empty());
    assert(out@ =~= spec_nodes(records.take(0), encoding));
    while i < n
        invariant
            i <= n,
            n == state@.len(),
            records == spec_dump_bindings(state@),
            encoding == RPCB::spec_encoding(),
            forall|k: int| 0 <= k < i ==> RPCB::spec_encodable(#[trigger] spec_make_rpcb(state@[k])),
            out@ == spec_nodes(records.take(i as int), encoding),
        decreases n - i,
    {
        let (key, description) = state.entry(i);
        let record = make_rpcb(key, description);
        assert(record@ == records[i as int]);
        let ghost before = out@;
        put_u32(&mut out, 1);
        match record.encode(&mut out) {
            Ok(()) => {},
            Err(_) => {
                return Err(RPCError::Accepted(AcceptedStatusError::SystemError));
            },
        }
        proof {
            crate::xdr::lemma_nodes_push(records.take(i as int), records[i as int], encoding);
            assert(records.take(i + 1) =~= records.take(i as int).push(records[i as int]));
            assert(out@ =~= spec_nodes(records.take(i + 1), encoding));
        }
        i += 1;
    }
    assert(records.take(i as int) =~= records);
    put_u32(&mut out, 0);
    assert(out@ =~= RPCB::spec_encode_list(records));
    Ok(out)
}

/// GetTime: the seconds since the epoch as a word, truncated to their low
/// 32 bits; a system error where the clock gave none.
pub fn get_time(now: Option<u64>) -> (r: RPCResult<Vec<u8>>)
    ensures
        answers(r, spec_get_time(now)),
{
    match now {
        Some(seconds) => serialize_u32((seconds % 0x1_0000_0000) as u32),
        None => Err(RPCError::Accepted(AcceptedStatusError::SystemError)),
    }
}

} // verus!
