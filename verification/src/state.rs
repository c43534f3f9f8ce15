//! The registry of bindings: which program, in which version and on which
//! transport, is reachable at which address.

use vstd::prelude::*;
use vstd::string::StringExecFns;

use crate::netconfig::{NetConfigEntry, NetConfigEntryView};
use crate::universal_address::{
    encode_universal_address, spec_universal_address, Ipv4Addr, SocketAddrV4,
};
use crate::xdr_types::port_mapper::Mapping;
use crate::xdr_types::rpcbind::{RpcbView, RPCB};

verus! {

/// The number of the transport protocol TCP.
pub const IPPROTO_TCP: u32 = 6;

/// The number of the transport protocol UDP.
pub const IPPROTO_UDP: u32 = 17;

/// The number of the protocol ICMP.
pub const IPPROTO_ICMP: u32 = 1;

/// The number that stands for raw IP.
pub const IPPROTO_IP: u32 = 0;

/// What a binding is registered under: a program, its version, and the
/// network identifier of a transport.
#[derive(Debug, PartialEq, Eq, Hash)]
pub struct ProgramKey {
    /// The program number.
    pub program: u32,
    /// The version of the program.
    pub version: u32,
    /// The network identifier of the transport.
    pub net_id: String,
}

/// What a key holds.
pub struct ProgramKeyView {
    /// The program number.
    pub program: u32,
    /// The version of the program.
    pub version: u32,
    /// The network identifier of the transport.
    pub net_id: Seq<char>,
}

impl View for ProgramKey {
    type V = ProgramKeyView;

    open spec fn view(&self) -> ProgramKeyView {
        ProgramKeyView { program: self.program, version: self.version, net_id: self.net_id@ }
    }
}

impl Clone for ProgramKey {
    fn clone(&self) -> (r: Self)
        ensures
            r == *self,
    {
        ProgramKey { program: self.program, version: self.version, net_id: self.net_id.clone() }
    }
}

/// The network identifier that stands for a protocol number: `tcp`, `udp`
/// and `icmp` for theirs, and `rawip` for every other.
pub open spec fn spec_prot_netid(prot: u32) -> Seq<char> {
    if prot == IPPROTO_TCP {
        "tcp"@
    } else if prot == IPPROTO_UDP {
        "udp"@
    } else if prot == IPPROTO_ICMP {
        "icmp"@
    } else {
        "rawip"@
    }
}

/// The protocol number that the name of a protocol stands for.
pub open spec fn spec_protocol_number(protoname: Seq<char>) -> Option<u32> {
    if protoname == "tcp"@ {
        Some(IPPROTO_TCP)
    } else if protoname == "udp"@ {
        Some(IPPROTO_UDP)
    } else if protoname == "icmp"@ {
        Some(IPPROTO_ICMP)
    } else if protoname == "rawip"@ {
        Some(IPPROTO_IP)
    } else {
        None
    }
}

/// The protocol number of a network identifier: that of the first entry of
/// the network configuration with this identifier whose protocol has a
/// number.
pub open spec fn spec_portmapper_description(
    net_id: Seq<char>,
    net_config: Seq<NetConfigEntryView>,
) -> Option<u32>
    decreases net_config.len(),
{
    if net_config.len() == 0 {
        None
    } else if net_config[0].network_id == net_id && spec_protocol_number(net_config[0].protoname)
        is Some {
        spec_protocol_number(net_config[0].protoname)
    } else {
        spec_portmapper_description(net_id, net_config.skip(1))
    }
}

/// The network identifier that stands for a protocol number.
pub fn prot_netid(prot: u32) -> (r: &'static str)
    ensures
        r@ == spec_prot_netid(prot),
{
    if prot == IPPROTO_TCP {
        "tcp"
    } else if prot == IPPROTO_UDP {
        "udp"
    } else if prot == IPPROTO_ICMP {
        "icmp"
    } else {
        "rawip"
    }
}

/// The protocol number that the name of a protocol stands for.
pub fn protocol_number(protoname: &String) -> (r: Option<u32>)
    ensures
        r == spec_protocol_number(protoname@),
{
    if *protoname == String::from_str("tcp") {
        Some(IPPROTO_TCP)
    } else if *protoname == String::from_str("udp") {
        Some(IPPROTO_UDP)
    } else if *protoname == String::from_str("icmp") {
        Some(IPPROTO_ICMP)
    } else if *protoname == String::from_str("rawip") {
        Some(IPPROTO_IP)
    } else {
        None
    }
}

impl ProgramKey {
    /// The key of a binding.
    pub open spec fn spec_from_rpcb(value: RpcbView) -> ProgramKeyView {
        ProgramKeyView { program: value.r_prog, version: value.r_vers, net_id: value.r_netid }
    }

    /// The key of a mapping: the transport is the one that its protocol
    /// number stands for.
    pub open spec fn spec_from_mapping(mapping: Mapping) -> ProgramKeyView {
        ProgramKeyView {
            program: mapping.prog,
            version: mapping.vers,
            net_id: spec_prot_netid(mapping.prot),
        }
    }

    /// The key of a binding.
    pub fn from_rpcb(value: &RPCB) -> (r: Self)
        ensures
            r@ == ProgramKey::spec_from_rpcb(value@),
    {
        ProgramKey { program: value.r_prog, version: value.r_vers, net_id: value.r_netid.clone() }
    }

    /// The key of a mapping.
    pub fn from_mapping(mapping: &Mapping) -> (r: Self)
        ensures
            r@ == ProgramKey::spec_from_mapping(*mapping),
    {
        ProgramKey {
            program: mapping.prog,
            version: mapping.vers,
            net_id: String::from_str(prot_netid(mapping.prot)),
        }
    }

    /// Whether two keys hold the same program, version and transport.
    pub fn same(&self, other: &ProgramKey) -> (r: bool)
        ensures
            r == (self@ == other@),
    {
        self.program == other.program && self.version == other.version && self.net_id
            == other.net_id
    }

    /// The protocol number that the portmapper knows the transport of this
    /// key by, where the network configuration gives it one.
    pub fn portmapper_description(&self, net_config: &[NetConfigEntry]) -> (r: Option<u32>)
        ensures
            r == spec_portmapper_description(self.net_id@, NetConfigEntry::views(net_config@)),
    {
        let ghost all = NetConfigEntry::views(net_config@);
        let mut i: usize = 0;
        assert(all.skip(0) =~= all);
        while i < net_config.len()
            invariant
                i <= net_config@.len(),
                all == NetConfigEntry::views(net_config@),
                spec_portmapper_description(self.net_id@, all) == spec_portmapper_description(
                    self.net_id@,
                    all.skip(i as int),
                ),
            decreases net_config@.len() - i,
        {
            let entry = &net_config[i];
            assert(all.skip(i as int)[0] == entry@);
            assert(all.skip(i as int).skip(1) =~= all.skip(i + 1));
            if entry.network_id == self.net_id {
                match protocol_number(&entry.protoname) {
                    Some(number) => {
                        return Some(number);
                    },
                    None => {},
                }
            }
            i += 1;
        }
        None
    }
}

/// What a binding says: the address that the program listens on, and who
/// registered it.
#[derive(Debug, PartialEq)]
pub struct ProgramDescription {
    /// The address that the program listens on.
    pub addr: SocketAddrV4,
    /// Who registered the binding, where that is known.
    pub owner: Option<String>,
}

/// What a description holds.
pub struct ProgramDescriptionView {
    /// The address that the program listens on.
    pub addr: SocketAddrV4,
    /// Who registered the binding, where that is known.
    pub owner: Option<Seq<char>>,
}

impl View for ProgramDescription {
    type V = ProgramDescriptionView;

    open spec fn view(&self) -> ProgramDescriptionView {
        ProgramDescriptionView {
            addr: self.addr,
            owner: match self.owner {
                Some(owner) => Some(owner@),
                None => None,
            },
        }
    }
}

impl Clone for ProgramDescription {
    fn clone(&self) -> (r: Self)
        ensures
            r@ == self@,
    {
        ProgramDescription {
            addr: self.addr,
            owner: match &self.owner {
                Some(owner) => Some(owner.clone()),
                None => None,
            },
        }
    }
}

impl ProgramDescription {
    /// The universal address of the binding, as bytes.
    pub open spec fn spec_universal_address(v: ProgramDescriptionView) -> Seq<u8> {
        spec_universal_address(v.addr)
    }

    /// The universal address of the binding.
    pub fn universal_address(&self) -> (r: String)
        ensures
            vstd::utf8::encode_utf8(r@) == ProgramDescription::spec_universal_address(self@),
    {
        encode_universal_address(&self.addr)
    }
}

/// A binding: a key and what is registered under it.
pub type EntryView = (ProgramKeyView, ProgramDescriptionView);

/// The binding record of an entry of the registry. An entry without an owner
/// has the empty text for one.
pub open spec fn spec_make_rpcb(entry: EntryView) -> RpcbView {
    RpcbView {
        r_prog: entry.0.program,
        r_vers: entry.0.version,
        r_netid: entry.0.net_id,
        r_addr: vstd::utf8::decode_utf8(ProgramDescription::spec_universal_address(entry.1)),
        r_owner: match entry.1.owner {
            Some(owner) => owner,
            None => Seq::empty(),
        },
    }
}

/// The binding record of an entry of the registry.
pub fn make_rpcb(key: &ProgramKey, value: &ProgramDescription) -> (r: RPCB)
    ensures
        r@ == spec_make_rpcb((key@, value@)),
{
    let r_addr = value.universal_address();
    proof {
        crate::universal_address::lemma_universal_address_ascii(value.addr);
        vstd::utf8::encode_utf8_decode_utf8(r_addr@);
    }
    RPCB {
        r_prog: key.program,
        r_vers: key.version,
        r_netid: key.net_id.clone(),
        r_addr,
        r_owner: match &value.owner {
            Some(owner) => owner.clone(),
            None => String::new(),
        },
    }
}

/// The description that is registered under `key`, where there is one.
pub open spec fn spec_lookup(entries: Seq<EntryView>, key: ProgramKeyView) -> Option<
    ProgramDescriptionView,
>
    decreases entries.len(),
{
    if entries.len() == 0 {
        None
    } else if entries[0].0 == key {
        Some(entries[0].1)
    } else {
        spec_lookup(entries.skip(1), key)
    }
}

/// Whether no two entries have the same key.
pub open spec fn distinct_keys(entries: Seq<EntryView>) -> bool {
    forall|i: int, j: int|
        0 <= i < j < entries.len() ==> (#[trigger] entries[i]).0 != (#[trigger] entries[j]).0
}

/// Inserting where the key is absent: the entries then, and whether the
/// binding was inserted. A binding under a new key goes behind the others;
/// under a key that is there, nothing changes.
pub open spec fn spec_insert_if_absent(
    entries: Seq<EntryView>,
    key: ProgramKeyView,
    value: ProgramDescriptionView,
) -> (Seq<EntryView>, bool) {
    if spec_lookup(entries, key) is Some {
        (entries, false)
    } else {
        (entries.push((key, value)), true)
    }
}

/// Holds of the entries whose key is not `key`.
pub open spec fn other_key(key: ProgramKeyView) -> spec_fn(EntryView) -> bool {
    |e: EntryView| e.0 != key
}

/// Holds of the entries that are not of this program and version.
pub open spec fn other_program(program: u32, version: u32) -> spec_fn(EntryView) -> bool {
    |e: EntryView| !(e.0.program == program && e.0.version == version)
}

/// Putting a binding under a key: it takes the place of the binding that is
/// under the key, or goes behind the others where there is none.
pub open spec fn spec_insert(
    entries: Seq<EntryView>,
    key: ProgramKeyView,
    value: ProgramDescriptionView,
) -> Seq<EntryView> {
    if spec_lookup(entries, key) is Some {
        Seq::new(
            entries.len(),
            |j: int|
                if entries[j].0 == key {
                    (key, value)
                } else {
                    entries[j]
                },
        )
    } else {
        entries.push((key, value))
    }
}

/// The entries without the one under `key`; the others keep their order.
pub open spec fn spec_remove(entries: Seq<EntryView>, key: ProgramKeyView) -> Seq<EntryView> {
    entries.filter(other_key(key))
}

/// The entries without those of a program and version, on whatever
/// transport; the others keep their order.
pub open spec fn spec_remove_matching(entries: Seq<EntryView>, program: u32, version: u32) -> Seq<
    EntryView,
> {
    entries.filter(other_program(program, version))
}

/// An entry is found under its own key where no entry before it has that
/// key, and a key that no entry has is not found.
pub proof fn lemma_lookup(entries: Seq<EntryView>, key: ProgramKeyView)
    ensures
        spec_lookup(entries, key) is None <==> forall|i: int|
            0 <= i < entries.len() ==> (#[trigger] entries[i]).0 != key,
        spec_lookup(entries, key) matches Some(v) ==> exists|i: int|
            0 <= i < entries.len() && #[trigger] entries[i] == (key, v),
    decreases entries.len(),
{
    if entries.len() > 0 {
        let rest = entries.skip(1);
        lemma_lookup(rest, key);
        if entries[0].0 == key {
            assert(entries[0] == (key, entries[0].1));
        } else {
            assert forall|i: int| 0 <= i < rest.len() implies rest[i] == entries[i + 1] by {}
            if spec_lookup(rest, key) is None {
                assert forall|i: int| 0 <= i < entries.len() implies (#[trigger] entries[i]).0
                    != key by {
                    if i > 0 {
                        assert(rest[i - 1] == entries[i]);
                    }
                }
            } else {
                let v = spec_lookup(rest, key)->0;
                let i = choose|i: int| 0 <= i < rest.len() && #[trigger] rest[i] == (key, v);
                assert(entries[i + 1] == (key, v));
            }
        }
    }
}

/// Among distinct keys, the entry at a position is the one that its key
/// finds.
pub proof fn lemma_lookup_at(entries: Seq<EntryView>, i: int)
    requires
        distinct_keys(entries),
        0 <= i < entries.len(),
    ensures
        spec_lookup(entries, entries[i].0) == Some(entries[i].1),
    decreases i,
{
    if i > 0 {
        let rest = entries.skip(1);
        assert forall|a: int, b: int| 0 <= a < b < rest.len() implies (#[trigger] rest[a]).0 != (
        #[trigger] rest[b]).0 by {
            assert(rest[a] == entries[a + 1]);
            assert(rest[b] == entries[b + 1]);
        }
        assert(rest[i - 1] == entries[i]);
        lemma_lookup_at(rest, i - 1);
        assert(entries[0].0 != entries[i].0);
    }
}

/// What a key finds once an entry has been put behind the others.
pub proof fn lemma_lookup_push(entries: Seq<EntryView>, entry: EntryView, key: ProgramKeyView)
    ensures
        spec_lookup(entries.push(entry), key) == if spec_lookup(entries, key) is Some {
            spec_lookup(entries, key)
        } else if entry.0 == key {
            Some(entry.1)
        } else {
            None
        },
    decreases entries.len(),
{
    let more = entries.push(entry);
    reveal_with_fuel(spec_lookup, 2);
    if entries.len() == 0 {
        assert(more[0] == entry);
        assert(more.skip(1) =~= Seq::<EntryView>::empty());
    } else {
        assert(more[0] == entries[0]);
        assert(more.skip(1) =~= entries.skip(1).push(entry));
        lemma_lookup_push(entries.skip(1), entry, key);
    }
}

/// Filtering the first `k + 1` entries is filtering the first `k` and then
/// keeping or dropping the next.
pub proof fn lemma_filter_step(entries: Seq<EntryView>, keep: spec_fn(EntryView) -> bool, k: int)
    requires
        0 <= k < entries.len(),
    ensures
        entries.take(k + 1).filter(keep) == if keep(entries[k]) {
            entries.take(k).filter(keep).push(entries[k])
        } else {
            entries.take(k).filter(keep)
        },
{
    reveal_with_fuel(Seq::filter, 2);
    assert(entries.take(k + 1).drop_last() =~= entries.take(k));
}

/// What is left of distinct entries when some are filtered out by their keys
/// is distinct, and finds under a key what was found before where that was
/// kept, and nothing where it was dropped.
pub proof fn lemma_filter_entries(
    entries: Seq<EntryView>,
    keep: spec_fn(EntryView) -> bool,
    key: ProgramKeyView,
)
    requires
        distinct_keys(entries),
        forall|a: EntryView, b: EntryView| a.0 == b.0 ==> keep(a) == keep(b),
    ensures
        distinct_keys(entries.filter(keep)),
        spec_lookup(entries.filter(keep), key) == match spec_lookup(entries, key) {
            Some(v) => if keep((key, v)) {
                Some(v)
            } else {
                None
            },
            None => None,
        },
    decreases entries.len(),
{
    let kept = entries.filter(keep);
    reveal_with_fuel(Seq::filter, 2);
    if entries.len() == 0 {
    } else {
        let front = entries.drop_last();
        let last = entries.last();
        assert forall|a: int, b: int| 0 <= a < b < front.len() implies (#[trigger] front[a]).0 != (
        #[trigger] front[b]).0 by {
            assert(front[a] == entries[a]);
            assert(front[b] == entries[b]);
        }
        lemma_filter_entries(front, keep, key);
        lemma_filter_entries(front, keep, last.0);
        let kept_front = front.filter(keep);
        lemma_lookup(front, last.0);
        assert(spec_lookup(front, last.0) is None) by {
            assert forall|i: int| 0 <= i < front.len() implies (#[trigger] front[i]).0
                != last.0 by {
                assert(front[i] == entries[i]);
                assert(last == entries[entries.len() - 1]);
            }
        }
        assert(entries =~= front.push(last));
        lemma_lookup_push(front, last, key);
        lemma_lookup(front, key);
        if keep(last) {
            assert(kept == kept_front.push(last));
            lemma_lookup(kept_front, last.0);
            assert forall|a: int, b: int| 0 <= a < b < kept.len() implies (#[trigger] kept[a]).0
                != (#[trigger] kept[b]).0 by {
                if b == kept.len() - 1 {
                    assert(kept[a] == kept_front[a]);
                } else {
                    assert(kept[a] == kept_front[a]);
                    assert(kept[b] == kept_front[b]);
                }
            }
            lemma_lookup_push(kept_front, last, key);
            if last.0 == key {
                assert(keep((key, last.1)));
            }
        } else {
            assert(kept == kept_front);
            if last.0 == key {
                assert(!keep((key, last.1)));
            }
        }
    }
}

/// Registering twice under one key: the second registration is refused and
/// changes nothing. Where the key was free before the first, the first is
/// accepted and its value is the one that stays.
pub proof fn lemma_insert_twice(
    entries: Seq<EntryView>,
    key: ProgramKeyView,
    first: ProgramDescriptionView,
    second: ProgramDescriptionView,
)
    ensures
        ({
            let once = spec_insert_if_absent(entries, key, first);
            let twice = spec_insert_if_absent(once.0, key, second);
            &&& !twice.1
            &&& twice.0 == once.0
            &&& spec_lookup(entries, key) is None ==> once.1 && spec_lookup(twice.0, key) == Some(
                first,
            )
        }),
{
    lemma_lookup_push(entries, (key, first), key);
}

/// Registering under a key that has just been taken out succeeds and stores
/// the new value, whether the key alone was taken out or every binding of
/// its program and version.
pub proof fn lemma_insert_after_remove(
    entries: Seq<EntryView>,
    key: ProgramKeyView,
    value: ProgramDescriptionView,
)
    requires
        distinct_keys(entries),
    ensures
        ({
            let after = spec_insert_if_absent(spec_remove(entries, key), key, value);
            after.1 && spec_lookup(after.0, key) == Some(value)
        }),
        ({
            let after = spec_insert_if_absent(
                spec_remove_matching(entries, key.program, key.version),
                key,
                value,
            );
            after.1 && spec_lookup(after.0, key) == Some(value)
        }),
{
    lemma_filter_entries(entries, other_key(key), key);
    lemma_filter_entries(entries, other_program(key.program, key.version), key);
    lemma_lookup_push(spec_remove(entries, key), (key, value), key);
    lemma_lookup_push(
        spec_remove_matching(entries, key.program, key.version),
        (key, value),
        key,
    );
}

/// Of two bindings of one program and version on two transports, taking out
/// by program and version leaves none, and taking out by the key of the
/// first leaves the second.
pub proof fn lemma_remove_scope(first: EntryView, second: EntryView)
    requires
        first.0.program == second.0.program,
        first.0.version == second.0.version,
        first.0.net_id != second.0.net_id,
    ensures
        spec_remove_matching(seq![first, second], first.0.program, first.0.version)
            == Seq::<EntryView>::empty(),
        spec_remove(seq![first, second], first.0) == seq![second],
{
    let both = seq![first, second];
    reveal_with_fuel(Seq::filter, 3);
    assert(both.drop_last() =~= seq![first]);
    assert(seq![first].drop_last() =~= Seq::<EntryView>::empty());
    assert(both.last() == second);
    assert(seq![first].last() == first);
    assert(spec_remove_matching(both, first.0.program, first.0.version) =~= Seq::<
        EntryView,
    >::empty());
    assert(spec_remove(both, first.0) =~= seq![second]);
}

/// The registry: the bindings in the order in which they were registered,
/// no two of them under the same key.
#[derive(Debug)]
pub struct Registry {
    entries: Vec<(ProgramKey, ProgramDescription)>,
}

/// The registry under the name that the handlers know it by.
pub type State = Registry;

impl View for Registry {
    type V = Seq<EntryView>;

    closed spec fn view(&self) -> Seq<EntryView> {
        Seq::new(self.entries@.len(), |i: int| (self.entries@[i].0@, self.entries@[i].1@))
    }
}

impl Registry {
    /// Whether no two bindings of the registry have the same key.
    pub open spec fn well_formed(&self) -> bool {
        distinct_keys(self@)
    }

    /// A registry without bindings.
    pub fn new() -> (r: Registry)
        ensures
            r@ == Seq::<EntryView>::empty(),
            r.well_formed(),
    {
        let r = Registry { entries: Vec::new() };
        assert(r@ =~= Seq::<EntryView>::empty());
        r
    }

    /// Whether no two bindings of the registry have the same key. Every
    /// registry that the functions of this module make or change has this
    /// property; the test is for callers that want to see it.
    pub fn is_well_formed(&self) -> (r: bool)
        ensures
            r == self.well_formed(),
    {
        let n = self.entries.len();
        let mut j: usize = 0;
        while j < n
            invariant
                j <= n,
                n == self@.len(),
                n == self.entries@.len(),
                forall|a: int, b: int|
                    0 <= a < b < j ==> (#[trigger] self@[a]).0 != (#[trigger] self@[b]).0,
            decreases n - j,
        {
            let mut i: usize = 0;
            while i < j
                invariant
                    i <= j < n,
                    n == self@.len(),
                    n == self.entries@.len(),
                    forall|a: int| 0 <= a < i ==> (#[trigger] self@[a]).0 != self@[j as int].0,
                decreases j - i,
            {
                if self.entries[i].0.same(&self.entries[j].0) {
                    assert(self@[i as int].0 == self@[j as int].0);
                    return false;
                }
                i += 1;
            }
            j += 1;
        }
        true
    }

    /// The number of bindings.
    pub fn len(&self) -> (n: usize)
        ensures
            n == self@.len(),
    {
        self.entries.len()
    }

    /// The binding at position `i` of the order in which the bindings were
    /// registered.
    pub fn entry(&self, i: usize) -> (r: (&ProgramKey, &ProgramDescription))
        requires
            i < self@.len(),
        ensures
            (r.0@, r.1@) == self@[i as int],
    {
        let e = &self.entries[i];
        (&e.0, &e.1)
    }

    /// A copy of the bindings, in the order in which they were registered.
    pub fn snapshot(&self) -> (r: Vec<(ProgramKey, ProgramDescription)>)
        ensures
            r@.len() == self@.len(),
            forall|i: int| 0 <= i < r@.len() ==> (#[trigger] r@[i].0@, r@[i].1@) == self@[i],
    {
        let mut copy: Vec<(ProgramKey, ProgramDescription)> = Vec::new();
        let mut i: usize = 0;
        while i < self.entries.len()
            invariant
                i <= self.entries@.len(),
                self@.len() == self.entries@.len(),
                copy@.len() == i,
                forall|k: int| 0 <= k < i ==> (#[trigger] copy@[k].0@, copy@[k].1@) == self@[k],
            decreases self.entries@.len() - i,
        {
            let entry = &self.entries[i];
            copy.push((entry.0.clone(), entry.1.clone()));
            i += 1;
        }
        copy
    }

    /// The position of the binding under `key`, where there is one.
    fn position(&self, key: &ProgramKey) -> (r: Option<usize>)
        ensures
            match r {
                Some(i) => i < self@.len() && self@[i as int].0 == key@ && spec_lookup(self@, key@)
                    == Some(self@[i as int].1),
                None => spec_lookup(self@, key@) is None,
            },
    {
        let mut i: usize = 0;
        assert(self@.skip(0) =~= self@);
        while i < self.entries.len()
            invariant
                i <= self@.len(),
                self@.len() == self.entries@.len(),
                spec_lookup(self@, key@) == spec_lookup(self@.skip(i as int), key@),
            decreases self@.len() - i,
        {
            assert(self@.skip(i as int)[0] == self@[i as int]);
            assert(self@.skip(i as int).skip(1) =~= self@.skip(i + 1));
            if self.entries[i].0.same(key) {
                return Some(i);
            }
            i += 1;
        }
        None
    }

    /// The description that is registered under `key`, where there is one.
    pub fn get(&self, key: &ProgramKey) -> (r: Option<&ProgramDescription>)
        ensures
            match spec_lookup(self@, key@) {
                Some(v) => r matches Some(d) && d@ == v,
                None => r is None,
            },
    {
        match self.position(key) {
            Some(i) => Some(&self.entries[i].1),
            None => None,
        }
    }

    /// Registers a binding under a key that has none, behind the bindings
    /// that are there, and says whether it did: under a key that has a
    /// binding nothing changes.
    pub fn insert_if_absent(&mut self, key: ProgramKey, value: ProgramDescription) -> (inserted:
        bool)
        requires
            old(self).well_formed(),
        ensures
            final(self).well_formed(),
            (final(self)@, inserted) == spec_insert_if_absent(old(self)@, key@, value@),
    {
        match self.position(&key) {
            Some(_) => false,
            None => {
                proof {
                    lemma_lookup(self@, key@);
                }
                let ghost before = self@;
                self.entries.push((key, value));
                assert(self@ =~= before.push((key@, value@)));
                assert forall|i: int, j: int| 0 <= i < j < self@.len() implies (
                #[trigger] self@[i]).0 != (#[trigger] self@[j]).0 by {
                    assert(self@[i] == before[i]);
                    if j < before.len() {
                        assert(self@[j] == before[j]);
                    }
                }
                true
            },
        }
    }

    /// Puts a binding under a key, in the place of the binding that is there
    /// or behind the others, and returns the description that was there.
    pub fn insert(&mut self, key: ProgramKey, value: ProgramDescription) -> (r: Option<
        ProgramDescription,
    >)
        requires
            old(self).well_formed(),
        ensures
            final(self).well_formed(),
            final(self)@ == spec_insert(old(self)@, key@, value@),
            match spec_lookup(old(self)@, key@) {
                Some(v) => r matches Some(d) && d@ == v,
                None => r is None,
            },
    {
        let ghost before = self@;
        match self.position(&key) {
            Some(i) => {
                let (_, previous) = self.entries.remove(i);
                self.entries.insert(i, (key, value));
                proof {
                    assert(self@ =~= before.update(i as int, (key@, value@)));
                    assert(self@ =~= spec_insert(before, key@, value@));
                    assert forall|a: int, b: int| 0 <= a < b < self@.len() implies (
                    #[trigger] self@[a]).0 != (#[trigger] self@[b]).0 by {
                        assert(self@[a].0 == before[a].0);
                        assert(self@[b].0 == before[b].0);
                    }
                }
                Some(previous)
            },
            None => {
                proof {
                    lemma_lookup(self@, key@);
                }
                self.entries.push((key, value));
                assert(self@ =~= before.push((key@, value@)));
                assert forall|a: int, b: int| 0 <= a < b < self@.len() implies (
                #[trigger] self@[a]).0 != (#[trigger] self@[b]).0 by {
                    assert(self@[a] == before[a]);
                    if b < before.len() {
                        assert(self@[b] == before[b]);
                    }
                }
                None
            },
        }
    }

    /// Takes the binding under `key` out of the registry and returns its
    /// description, where there is one.
    pub fn remove(&mut self, key: &ProgramKey) -> (r: Option<ProgramDescription>)
        requires
            old(self).well_formed(),
        ensures
            final(self).well_formed(),
            final(self)@ == spec_remove(old(self)@, key@),
            match spec_lookup(old(self)@, key@) {
                Some(v) => r matches Some(d) && d@ == v,
                None => r is None,
            },
    {
        let ghost before = self@;
        match self.position(key) {
            Some(i) => {
                let (_, description) = self.entries.remove(i);
                proof {
                    assert(self@ =~= before.remove(i as int));
                    lemma_remove_is_filter(before, i as int);
                    lemma_filter_entries(before, other_key(key@), key@);
                }
                Some(description)
            },
            None => {
                proof {
                    lemma_lookup(before, key@);
                    lemma_filter_all(before, other_key(key@));
                }
                None
            },
        }
    }

    /// Takes every binding of a program and version out of the registry, on
    /// whatever transport, and returns how many there were.
    pub fn remove_matching(&mut self, program: u32, version: u32) -> (removed: usize)
        requires
            old(self).well_formed(),
        ensures
            final(self).well_formed(),
            final(self)@ == spec_remove_matching(old(self)@, program, version),
            removed == old(self)@.len() - final(self)@.len(),
    {
        let ghost before = self@;
        let ghost keep = other_program(program, version);
        let total: usize = self.entries.len();
        let mut i: usize = 0;
        let mut removed: usize = 0;
        proof {
            reveal_with_fuel(Seq::filter, 2);
            assert(before.take(0).filter(keep) =~= self@.take(0));
            assert(self@.skip(0) =~= before.skip(0));
        }
        while i < self.entries.len()
            invariant
                i <= self@.len(),
                self@.len() == self.entries@.len(),
                i + removed <= before.len(),
                self@.len() + removed == before.len(),
                before.len() == total,
                keep == other_program(program, version),
                self@.take(i as int) == before.take(i + removed).filter(keep),
                self@.skip(i as int) == before.skip(i + removed),
            decreases self@.len() - i,
        {
            let ghost now = self@;
            let ghost j = (i + removed) as int;
            assert(now[i as int] == now.skip(i as int)[0]);
            assert(before[j] == before.skip(j)[0]);
            proof {
                lemma_filter_step(before, keep, j);
            }
            let matches = self.entries[i].0.program == program && self.entries[i].0.version
                == version;
            if matches {
                let _ = self.entries.remove(i);
                assert(self@ =~= now.remove(i as int));
                assert(self@.take(i as int) =~= now.take(i as int));
                assert(self@.skip(i as int) =~= now.skip(i as int).skip(1));
                assert(before.skip(j).skip(1) =~= before.skip(j + 1));
                removed += 1;
            } else {
                assert(now.take(i + 1) =~= now.take(i as int).push(now[i as int]));
                assert(now.skip(i as int).skip(1) =~= now.skip(i + 1));
                assert(before.skip(j).skip(1) =~= before.skip(j + 1));
                i += 1;
            }
        }
        proof {
            assert(self@.take(i as int) =~= self@);
            assert(before.take(i + removed) =~= before);
            lemma_filter_entries(
                before,
                keep,
                ProgramKeyView { program, version, net_id: Seq::empty() },
            );
        }
        removed
    }
}

/// The program number of the service itself.
pub const PROGRAM_ID: u32 = 100000;

/// The port of the service itself.
pub const RPCBIND_PORT: u16 = 111;

/// The key under which the service advertises itself in a version.
pub open spec fn spec_own_key(version: u32) -> ProgramKeyView {
    ProgramKeyView { program: PROGRAM_ID, version, net_id: "tcp"@ }
}

/// What the service advertises of itself on an address.
pub open spec fn spec_own_description(ip: Ipv4Addr) -> ProgramDescriptionView {
    ProgramDescriptionView {
        addr: SocketAddrV4 { ip, port: RPCBIND_PORT },
        owner: Some("rpcbind-rs"@),
    }
}

/// The registry once the service has advertised itself on one address, in
/// the versions 2, 3 and 4.
pub open spec fn spec_seed_address(entries: Seq<EntryView>, ip: Ipv4Addr) -> Seq<EntryView> {
    spec_insert(
        spec_insert(
            spec_insert(entries, spec_own_key(2), spec_own_description(ip)),
            spec_own_key(3),
            spec_own_description(ip),
        ),
        spec_own_key(4),
        spec_own_description(ip),
    )
}

/// The registry once the service has advertised itself on each of its
/// addresses in turn: the last address is the one that stays.
pub open spec fn spec_seed(entries: Seq<EntryView>, addrs: Seq<Ipv4Addr>) -> Seq<EntryView>
    decreases addrs.len(),
{
    if addrs.len() == 0 {
        entries
    } else {
        spec_seed_address(spec_seed(entries, addrs.drop_last()), addrs.last())
    }
}

/// Advertises the service itself in the registry: for each of its
/// addresses, the program of the service on TCP in the versions 2 to 4.
pub fn seed(state: &mut Registry, addrs: &[Ipv4Addr])
    requires
        old(state).well_formed(),
    ensures
        final(state).well_formed(),
        final(state)@ == spec_seed(old(state)@, addrs@),
{
    let mut i: usize = 0;
    assert(addrs@.take(0) =~= Seq::<Ipv4Addr>::empty());
    while i < addrs.len()
        invariant
            i <= addrs@.len(),
            state.well_formed(),
            state@ == spec_seed(old(state)@, addrs@.take(i as int)),
        decreases addrs@.len() - i,
    {
        let ip = addrs[i];
        let mut version: u32 = 2;
        let ghost start = state@;
        while version < 5
            invariant
                2 <= version <= 5,
                state.well_formed(),
                version == 2 ==> state@ == start,
                version == 3 ==> state@ == spec_insert(
                    start,
                    spec_own_key(2),
                    spec_own_description(ip),
                ),
                version == 4 ==> state@ == spec_insert(
                    spec_insert(start, spec_own_key(2), spec_own_description(ip)),
                    spec_own_key(3),
                    spec_own_description(ip),
                ),
                version == 5 ==> state@ == spec_seed_address(start, ip),
            decreases 5 - version,
        {
            let key = ProgramKey {
                program: PROGRAM_ID,
                version,
                net_id: String::from_str("tcp"),
            };
            let description = ProgramDescription {
                addr: SocketAddrV4::new(ip, RPCBIND_PORT),
                owner: Some(String::from_str("rpcbind-rs")),
            };
            let _ = state.insert(key, description);
            version += 1;
        }
        proof {
            assert(addrs@.take(i + 1).drop_last() =~= addrs@.take(i as int));
            assert(addrs@.take(i + 1).last() == ip);
        }
        i += 1;
    }
    assert(addrs@.take(i as int) =~= addrs@);
}

/// Taking the entry under a key out makes the entries fewer where the key had
/// an entry, and leaves as many where it had none.
pub proof fn lemma_remove_len(entries: Seq<EntryView>, key: ProgramKeyView)
    requires
        distinct_keys(entries),
    ensures
        spec_lookup(entries, key) is Some <==> spec_remove(entries, key).len() < entries.len(),
        spec_remove(entries, key).len() <= entries.len(),
{
    lemma_lookup(entries, key);
    if spec_lookup(entries, key) is Some {
        let v = spec_lookup(entries, key)->0;
        let i = choose|i: int| 0 <= i < entries.len() && #[trigger] entries[i] == (key, v);
        lemma_remove_is_filter(entries, i);
    } else {
        lemma_filter_all(entries, other_key(key));
    }
}

/// Among distinct keys, dropping the entries under a key is taking out the
/// one entry that has it.
pub proof fn lemma_remove_is_filter(entries: Seq<EntryView>, i: int)
    requires
        distinct_keys(entries),
        0 <= i < entries.len(),
    ensures
        spec_remove(entries, entries[i].0) == entries.remove(i),
    decreases entries.len(),
{
    let key = entries[i].0;
    let keep = other_key(key);
    reveal_with_fuel(Seq::filter, 2);
    let front = entries.drop_last();
    let last = entries.last();
    assert forall|a: int, b: int| 0 <= a < b < front.len() implies (#[trigger] front[a]).0 != (
    #[trigger] front[b]).0 by {
        assert(front[a] == entries[a]);
        assert(front[b] == entries[b]);
    }
    if i == entries.len() - 1 {
        assert forall|a: int| 0 <= a < front.len() implies keep(#[trigger] front[a]) by {
            assert(front[a] == entries[a]);
        }
        lemma_filter_all(front, keep);
        assert(entries.remove(i) =~= front);
    } else {
        assert(front[i] == entries[i]);
        lemma_remove_is_filter(front, i);
        assert(last == entries[entries.len() - 1]);
        assert(keep(last));
        assert(entries.remove(i) =~= front.remove(i).push(last));
    }
}

/// Filtering keeps a sequence as it is where every entry is kept.
pub proof fn lemma_filter_all(entries: Seq<EntryView>, keep: spec_fn(EntryView) -> bool)
    requires
        forall|i: int| 0 <= i < entries.len() ==> keep(#[trigger] entries[i]),
    ensures
        entries.filter(keep) == entries,
    decreases entries.len(),
{
    reveal_with_fuel(Seq::filter, 2);
    if entries.len() > 0 {
        let front = entries.drop_last();
        assert forall|i: int| 0 <= i < front.len() implies keep(#[trigger] front[i]) by {
            assert(front[i] == entries[i]);
        }
        lemma_filter_all(front, keep);
        assert(keep(entries[entries.len() - 1]));
        assert(front.push(entries.last()) =~= entries);
    }
}

} // verus!
