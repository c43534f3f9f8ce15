//! The procedures of the port mapper, version 2 of the program.

use vstd::prelude::*;

use crate::error::{AcceptedStatusError, RPCError, RPCResult};
use crate::netconfig::{NetConfigEntry, NetConfigEntryView};
use crate::process_request::{
    answers, garbage_args, handled, outcome, serialize_bool, serialize_u32, spec_set, ProcessError,
    RequestResult,
};
use crate::request::{PortMapperRequest, PortMapperRequestView};
use crate::state::{
    spec_lookup, spec_portmapper_description, spec_remove_matching, EntryView, ProgramDescription,
    ProgramDescriptionView, ProgramKey, Registry,
};
use crate::universal_address::{Ipv4Addr, SocketAddrV4};
use crate::xdr::{put_u32, spec_bool, spec_nodes, spec_u32};
use crate::xdr_types::port_mapper::Mapping;

verus! {

/// What a mapping registers: the port on the unspecified address, without an
/// owner.
pub open spec fn spec_description(mapping: Mapping) -> ProgramDescriptionView {
    ProgramDescriptionView {
        addr: SocketAddrV4 { ip: Ipv4Addr { a: 0, b: 0, c: 0, d: 0 }, port: mapping.port as u16 },
        owner: None,
    }
}

/// Set: a port that does not fit 16 bits is garbage; any other mapping is
/// registered where its key has no binding.
pub open spec fn spec_set_mapping(entries: Seq<EntryView>, mapping: Mapping) -> (
    Seq<EntryView>,
    Result<Seq<u8>, RPCError>,
) {
    if mapping.port > 0xffff {
        (entries, Err(garbage_args()))
    } else {
        spec_set(entries, ProgramKey::spec_from_mapping(mapping), spec_description(mapping))
    }
}

/// Unset: every binding of the program and version goes, whatever the
/// protocol of the mapping, and the answer is always "true".
pub open spec fn spec_unset(entries: Seq<EntryView>, mapping: Mapping) -> (
    Seq<EntryView>,
    Result<Seq<u8>, RPCError>,
) {
    (spec_remove_matching(entries, mapping.prog, mapping.vers), Ok(spec_bool(true)))
}

/// GetPort: the port of the binding under the key of the mapping, or 0
/// where there is none.
pub open spec fn spec_get_port(entries: Seq<EntryView>, mapping: Mapping) -> Result<
    Seq<u8>,
    RPCError,
> {
    Ok(
        spec_u32(
            match spec_lookup(entries, ProgramKey::spec_from_mapping(mapping)) {
                Some(value) => value.addr.port as u32,
                None => 0,
            },
        ),
    )
}

/// The mapping that the port mapper shows for a binding: none where the
/// network configuration gives the transport no protocol number.
pub open spec fn mapping_of(net_config: Seq<NetConfigEntryView>) -> spec_fn(EntryView) -> Option<
    Mapping,
> {
    |e: EntryView|
        match spec_portmapper_description(e.0.net_id, net_config) {
            Some(prot) => Some(
                Mapping {
                    prog: e.0.program,
                    vers: e.0.version,
                    prot,
                    port: e.1.addr.port as u32,
                },
            ),
            None => None,
        }
}

/// The mappings that a dump lists: those of the bindings, in the order of
/// the registry, without the bindings that have none.
pub open spec fn spec_dump_mappings(
    entries: Seq<EntryView>,
    net_config: Seq<NetConfigEntryView>,
) -> Seq<Mapping> {
    entries.filter_map(mapping_of(net_config))
}

/// Dump: the list of the mappings.
pub open spec fn spec_dump(entries: Seq<EntryView>, net_config: Seq<NetConfigEntryView>) -> Result<
    Seq<u8>,
    RPCError,
> {
    Ok(Mapping::spec_encode_list(spec_dump_mappings(entries, net_config)))
}

/// What a request to the port mapper does: the registry then, and the
/// outcome.
pub open spec fn spec_process_request(
    request: PortMapperRequestView,
    entries: Seq<EntryView>,
    net_config: Seq<NetConfigEntryView>,
) -> (Seq<EntryView>, Result<Seq<u8>, ProcessError>) {
    match request {
        PortMapperRequestView::Null => (entries, Ok(Seq::empty())),
        PortMapperRequestView::SetMapping(mapping) => (
            spec_set_mapping(entries, mapping).0,
            handled(spec_set_mapping(entries, mapping).1),
        ),
        PortMapperRequestView::Unset(mapping) => (
            spec_unset(entries, mapping).0,
            handled(spec_unset(entries, mapping).1),
        ),
        PortMapperRequestView::GetPort(mapping) => (
            entries,
            handled(spec_get_port(entries, mapping)),
        ),
        PortMapperRequestView::Dump => (entries, handled(spec_dump(entries, net_config))),
        PortMapperRequestView::CallIt(_) => (entries, Err(ProcessError::NotYetImplemented)),
    }
}

/// GetPort on a key without a binding answers 0, and no failure.
pub proof fn lemma_get_port_miss(entries: Seq<EntryView>, mapping: Mapping)
    requires
        spec_lookup(entries, ProgramKey::spec_from_mapping(mapping)) is None,
    ensures
        spec_get_port(entries, mapping) == Ok::<Seq<u8>, RPCError>(spec_u32(0)),
{
}

/// The shape of a dump: for an empty registry it is the terminator alone,
/// not a failure and not a present node; for a registry that shows `n`
/// mappings it is `n` present nodes of 20 bytes, in the order of the
/// registry, and the terminator.
pub proof fn lemma_dump_shape(entries: Seq<EntryView>, net_config: Seq<NetConfigEntryView>)
    ensures
        spec_dump(Seq::<EntryView>::empty(), net_config) == Ok::<Seq<u8>, RPCError>(spec_u32(0)),
        spec_dump(entries, net_config) == Ok::<Seq<u8>, RPCError>(
            spec_nodes(spec_dump_mappings(entries, net_config), Mapping::spec_encoding())
                + spec_u32(0),
        ),
        spec_nodes(spec_dump_mappings(entries, net_config), Mapping::spec_encoding()).len() == 20
            * spec_dump_mappings(entries, net_config).len(),
{
    let encoding = Mapping::spec_encoding();
    let none = Seq::<EntryView>::empty().filter_map(mapping_of(net_config));
    assert(none =~= Seq::<Mapping>::empty());
    crate::xdr::lemma_list_empty(encoding);
    let shown = spec_dump_mappings(entries, net_config);
    assert forall|i: int| 0 <= i < shown.len() implies (#[trigger] encoding(shown[i])).len()
        == 16 by {
        shown[i].lemma_round_trip(Seq::empty());
    }
    crate::xdr::lemma_list_len(shown, encoding, 16);
    let width: nat = 16;
    assert(shown.len() * (4 + width) == 20 * shown.len()) by (nonlinear_arith)
        requires
            width == 16,
    ;
}

/// Setting a mapping twice: the second call answers "false" and changes
/// nothing.
pub proof fn lemma_set_twice(entries: Seq<EntryView>, first: Mapping, second: Mapping)
    requires
        ProgramKey::spec_from_mapping(first) == ProgramKey::spec_from_mapping(second),
        first.port <= 0xffff,
        second.port <= 0xffff,
    ensures
        ({
            let once = spec_set_mapping(entries, first);
            let twice = spec_set_mapping(once.0, second);
            twice.0 == once.0 && twice.1 == Ok::<Seq<u8>, RPCError>(spec_bool(false))
        }),
{
    crate::state::lemma_insert_twice(
        entries,
        ProgramKey::spec_from_mapping(first),
        spec_description(first),
        spec_description(second),
    );
}

/// Handles a request to the port mapper.
pub fn process_request(
    request: &PortMapperRequest,
    state: &mut Registry,
    net_config: &[NetConfigEntry],
) -> (r: RequestResult)
    requires
        old(state).well_formed(),
    ensures
        final(state).well_formed(),
        final(state)@ == spec_process_request(
            request@,
            old(state)@,
            NetConfigEntry::views(net_config@),
        ).0,
        outcome(
            r,
            spec_process_request(request@, old(state)@, NetConfigEntry::views(net_config@)).1,
        ),
{
    let result = match request {
        PortMapperRequest::Null => Ok(Vec::new()),
        PortMapperRequest::SetMapping(mapping) => set(state, mapping),
        PortMapperRequest::Unset(mapping) => unset(state, mapping),
        PortMapperRequest::GetPort(mapping) => get_port(state, mapping),
        PortMapperRequest::Dump => dump(state, net_config),
        PortMapperRequest::CallIt(_) => {
            return Err(ProcessError::NotYetImplemented);
        },
    };
    match result {
        Ok(bytes) => Ok(bytes),
        Err(e) => Err(ProcessError::Reply(e)),
    }
}

/// Whether a request to the port mapper can change the registry.
pub open spec fn spec_mutates(request: PortMapperRequestView) -> bool {
    request is SetMapping || request is Unset
}

/// A request that cannot change the registry leaves it as it is.
pub proof fn lemma_query_changes_nothing(
    request: PortMapperRequestView,
    entries: Seq<EntryView>,
    net_config: Seq<NetConfigEntryView>,
)
    requires
        !spec_mutates(request),
    ensures
        spec_process_request(request, entries, net_config).0 == entries,
{
}

/// Handles a request to the port mapper that only reads the registry;
/// `None` for a request that can change it.
pub fn process_query(
    request: &PortMapperRequest,
    state: &Registry,
    net_config: &[NetConfigEntry],
) -> (r: Option<RequestResult>)
    ensures
        spec_mutates(request@) <==> r is None,
        r matches Some(result) ==> outcome(
            result,
            spec_process_request(request@, state@, NetConfigEntry::views(net_config@)).1,
        ),
{
    let result = match request {
        PortMapperRequest::Null => Ok(Vec::new()),
        PortMapperRequest::SetMapping(_) => {
            return None;
        },
        PortMapperRequest::Unset(_) => {
            return None;
        },
        PortMapperRequest::GetPort(mapping) => get_port(state, mapping),
        PortMapperRequest::Dump => dump(state, net_config),
        PortMapperRequest::CallIt(_) => {
            return Some(Err(ProcessError::NotYetImplemented));
        },
    };
    match result {
        Ok(bytes) => Some(Ok(bytes)),
        Err(e) => Some(Err(ProcessError::Reply(e))),
    }
}

/// Set: registers the port of a mapping where its key has no binding.
pub fn set(state: &mut Registry, mapping: &Mapping) -> (r: RPCResult<Vec<u8>>)
    requires
        old(state).well_formed(),
    ensures
        final(state).well_formed(),
        final(state)@ == spec_set_mapping(old(state)@, *mapping).0,
        answers(r, spec_set_mapping(old(state)@, *mapping).1),
{
    let key = ProgramKey::from_mapping(mapping);
    if mapping.port > 0xffff {
        return Err(RPCError::Accepted(AcceptedStatusError::GarbageArgs));
    }
    let port: u16 = mapping.port as u16;
    let val = ProgramDescription {
        addr: SocketAddrV4::new(Ipv4Addr::unspecified(), port),
        owner: None,
    };
    crate::process_request::set(state, key, val)
}

/// Unset: takes every binding of the program and version out.
pub fn unset(state: &mut Registry, mapping: &Mapping) -> (r: RPCResult<Vec<u8>>)
    requires
        old(state).well_formed(),
    ensures
        final(state).well_formed(),
        final(state)@ == spec_unset(old(state)@, *mapping).0,
        answers(r, spec_unset(old(state)@, *mapping).1),
{
    let _ = state.remove_matching(mapping.prog, mapping.vers);
    serialize_bool(true)
}

/// GetPort: the port of a mapping, or 0 where it is not registered.
pub fn get_port(state: &Registry, mapping: &Mapping) -> (r: RPCResult<Vec<u8>>)
    ensures
        answers(r, spec_get_port(state@, *mapping)),
{
    let key = ProgramKey::from_mapping(mapping);
    let ret_val: u16 = match state.get(&key) {
        Some(val) => val.addr.port(),
        None => 0,
    };
    serialize_u32(ret_val as u32)
}

/// Dump: the list of the mappings, written as the registry is walked.
pub fn dump(state: &Registry, net_config: &[NetConfigEntry]) -> (r: RPCResult<Vec<u8>>)
    ensures
        answers(r, spec_dump(state@, NetConfigEntry::views(net_config@))),
{
    let ghost config = NetConfigEntry::views(net_config@);
    let ghost select = mapping_of(config);
    let ghost encoding = Mapping::spec_encoding();
    let mut out: Vec<u8> = Vec::new();
    let n = state.len();
    let mut i: usize = 0;
    assert(state@.take(0).filter_map(select) =~= Seq::<Mapping>::empty());
    assert(out@ =~= spec_nodes(state@.take(0).filter_map(select), encoding));
    while i < n
        invariant
            i <= n,
            n == state@.len(),
            config == NetConfigEntry::views(net_config@),
            select == mapping_of(config),
            encoding == Mapping::spec_encoding(),
            out@ == spec_nodes(state@.take(i as int).filter_map(select), encoding),
        decreases n - i,
    {
        let (key, description) = state.entry(i);
        proof {
            state@.lemma_filter_map_take_succ(select, i as int);
        }
        match key.portmapper_description(net_config) {
            Some(prot) => {
                let mapping = Mapping {
                    prog: key.program,
                    vers: key.version,
                    prot,
                    port: description.addr.port() as u32,
                };
                let ghost before = state@.take(i as int).filter_map(select);
                put_u32(&mut out, 1);
                mapping.encode(&mut out);
                proof {
                    assert(select(state@[i as int]) == Some(mapping));
                    crate::xdr::lemma_nodes_push(before, mapping, encoding);
                    assert(before + seq![mapping] =~= before.push(mapping));
                    assert(out@ =~= spec_nodes(before.push(mapping), encoding));
                }
            },
            None => {
                proof {
                    assert(select(state@[i as int]) is None);
                    assert(state@.take(i as int).filter_map(select) + Seq::<Mapping>::empty()
                        =~= state@.take(i as int).filter_map(select));
                }
            },
        }
        i += 1;
    }
    assert(state@.take(i as int) =~= state@);
    put_u32(&mut out, 0);
    assert(out@ =~= Mapping::spec_encode_list(spec_dump_mappings(state@, config)));
    Ok(out)
}

} // verus!
