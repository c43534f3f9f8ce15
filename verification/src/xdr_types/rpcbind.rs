//! The structures of rpcbind, versions 3 and 4 of the program.

use vstd::prelude::*;
use vstd::utf8::encode_utf8;

use crate::xdr::{
    get_string, get_u32, parse_list, parse_string, parse_u32, put_string, put_u32, spec_list,
    spec_nodes, spec_string, spec_u32, XdrError,
};
use crate::xdr_types::CreateList;

verus! {

/// The number of procedures that statistics are kept of.
pub const STAT_HIGHPROC: u32 = 13;

/// The index of the statistics of version 2.
pub const VERS_2_STAT: u32 = 0;

/// The index of the statistics of version 3.
pub const VERS_3_STAT: u32 = 1;

/// The index of the statistics of version 4.
pub const VERS_4_STAT: u32 = 2;

/// The number of versions that statistics are kept of.
pub const VERS_STAT: u32 = 3;

/// The port of the service.
pub const _PORT: u32 = 111;

/// The highest procedure number of version 2.
pub const HIGHPROC_2: u32 = 5;

/// The highest procedure number of version 3.
pub const HIGHPROC_3: u32 = 8;

/// The highest procedure number of version 4.
pub const HIGHPROC_4: u32 = 12;

/// A transport address as bytes, with the size of the buffer that holds it.
#[derive(Debug, PartialEq)]
pub struct NetBuf {
    /// The size of the buffer.
    pub maxlen: u32,
    /// The bytes of the address.
    pub buf: Vec<u8>,
}

/// A binding of a program and version on a transport to a universal address.
#[derive(Debug, PartialEq)]
pub struct RPCB {
    /// The program number.
    pub r_prog: u32,
    /// The version of the program.
    pub r_vers: u32,
    /// The network identifier of the transport.
    pub r_netid: String,
    /// The universal address that the program listens on.
    pub r_addr: String,
    /// The owner of the binding; empty where it has none.
    pub r_owner: String,
}

/// What a binding holds.
pub struct RpcbView {
    /// The program number.
    pub r_prog: u32,
    /// The version of the program.
    pub r_vers: u32,
    /// The network identifier of the transport.
    pub r_netid: Seq<char>,
    /// The universal address that the program listens on.
    pub r_addr: Seq<char>,
    /// The owner of the binding; empty where it has none.
    pub r_owner: Seq<char>,
}

impl View for RPCB {
    type V = RpcbView;

    open spec fn view(&self) -> RpcbView {
        RpcbView {
            r_prog: self.r_prog,
            r_vers: self.r_vers,
            r_netid: self.r_netid@,
            r_addr: self.r_addr@,
            r_owner: self.r_owner@,
        }
    }
}

impl Clone for RPCB {
    fn clone(&self) -> (r: Self)
        ensures
            r == *self,
    {
        RPCB {
            r_prog: self.r_prog,
            r_vers: self.r_vers,
            r_netid: self.r_netid.clone(),
            r_addr: self.r_addr.clone(),
            r_owner: self.r_owner.clone(),
        }
    }
}

impl RPCB {
    /// Whether each text of the binding has a length that a word can say.
    pub open spec fn spec_encodable(v: RpcbView) -> bool {
        &&& encode_utf8(v.r_netid).len() <= u32::MAX
        &&& encode_utf8(v.r_addr).len() <= u32::MAX
        &&& encode_utf8(v.r_owner).len() <= u32::MAX
    }

    /// The encoding of a binding: two words and three texts.
    pub open spec fn spec_encode(v: RpcbView) -> Seq<u8> {
        spec_u32(v.r_prog) + spec_u32(v.r_vers) + spec_string(v.r_netid) + spec_string(v.r_addr)
            + spec_string(v.r_owner)
    }

    /// Reads a binding from the front of `buf`: the binding and what follows
    /// it.
    pub open spec fn parse(buf: Seq<u8>) -> Result<(RpcbView, Seq<u8>), XdrError> {
        match parse_u32(buf) {
            Err(e) => Err(e),
            Ok((r_prog, r1)) => match parse_u32(r1) {
                Err(e) => Err(e),
                Ok((r_vers, r2)) => match parse_string(r2) {
                    Err(e) => Err(e),
                    Ok((r_netid, r3)) => match parse_string(r3) {
                        Err(e) => Err(e),
                        Ok((r_addr, r4)) => match parse_string(r4) {
                            Err(e) => Err(e),
                            Ok((r_owner, r5)) => Ok(
                                (RpcbView { r_prog, r_vers, r_netid, r_addr, r_owner }, r5),
                            ),
                        },
                    },
                },
            },
        }
    }

    /// The views of a sequence of bindings.
    pub open spec fn views(items: Seq<RPCB>) -> Seq<RpcbView> {
        Seq::new(items.len(), |i: int| items[i]@)
    }

    /// The encoding of bindings, as a function.
    pub open spec fn spec_encoding() -> spec_fn(RpcbView) -> Seq<u8> {
        |v: RpcbView| RPCB::spec_encode(v)
    }

    /// The encoding of a list of bindings.
    pub open spec fn spec_encode_list(items: Seq<RpcbView>) -> Seq<u8> {
        spec_list(items, RPCB::spec_encoding())
    }

    /// A binding that can be encoded is read back from its encoding,
    /// whatever follows it.
    pub proof fn lemma_round_trip(v: RpcbView, tail: Seq<u8>)
        requires
            RPCB::spec_encodable(v),
        ensures
            RPCB::parse(RPCB::spec_encode(v) + tail) == Ok::<(RpcbView, Seq<u8>), XdrError>(
                (v, tail),
            ),
    {
        let p = spec_u32(v.r_prog);
        let q = spec_u32(v.r_vers);
        let n = spec_string(v.r_netid);
        let a = spec_string(v.r_addr);
        let o = spec_string(v.r_owner);
        let r4 = o + tail;
        let r3 = a + r4;
        let r2 = n + r3;
        let r1 = q + r2;
        assert((p + q + n + a + o) + tail =~= (p + q + n + a) + r4);
        assert((p + q + n + a) + r4 =~= (p + q + n) + r3);
        assert((p + q + n) + r3 =~= (p + q) + r2);
        assert((p + q) + r2 =~= p + r1);
        assert(RPCB::spec_encode(v) + tail == p + r1);
        crate::xdr::lemma_parse_u32_round_trip(v.r_prog, r1);
        crate::xdr::lemma_parse_u32_round_trip(v.r_vers, r2);
        crate::xdr::lemma_parse_string_round_trip(v.r_netid, r3);
        crate::xdr::lemma_parse_string_round_trip(v.r_addr, r4);
        crate::xdr::lemma_parse_string_round_trip(v.r_owner, tail);
    }

    /// Whether each text of the binding has a length that a word can say.
    pub fn encodable(&self) -> (r: bool)
        ensures
            r == RPCB::spec_encodable(self@),
    {
        self.r_netid.as_str().as_bytes().len() <= 0xffff_ffff
            && self.r_addr.as_str().as_bytes().len() <= 0xffff_ffff
            && self.r_owner.as_str().as_bytes().len() <= 0xffff_ffff
    }

    /// Appends the encoding of the binding, or leaves `out` as it is where
    /// one of its texts is too long for a 32-bit length.
    pub fn encode(&self, out: &mut Vec<u8>) -> (r: Result<(), XdrError>)
        ensures
            RPCB::spec_encodable(self@) ==> r is Ok && final(out)@ == old(out)@
                + RPCB::spec_encode(self@),
            !RPCB::spec_encodable(self@) ==> r == Err::<(), XdrError>(XdrError::TooLong)
                && final(out)@ == old(out)@,
    {
        if !self.encodable() {
            return Err(XdrError::TooLong);
        }
        put_u32(out, self.r_prog);
        put_u32(out, self.r_vers);
        let _ = put_string(out, self.r_netid.as_str());
        let _ = put_string(out, self.r_addr.as_str());
        let _ = put_string(out, self.r_owner.as_str());
        assert(out@ =~= old(out)@ + RPCB::spec_encode(self@));
        Ok(())
    }

    /// Reads a binding at `pos`: the binding and the position behind it.
    pub fn decode(buf: &[u8], pos: usize) -> (r: Result<(RPCB, usize), XdrError>)
        requires
            pos <= buf@.len(),
        ensures
            match RPCB::parse(buf@.skip(pos as int)) {
                Ok((v, rest)) => r matches Ok((w, next)) && w@ == v && pos <= next <= buf@.len()
                    && rest == buf@.skip(next as int),
                Err(e) => r == Err::<(RPCB, usize), XdrError>(e),
            },
    {
        let (r_prog, p1) = match get_u32(buf, pos) {
            Err(e) => { return Err(e); },
            Ok(p) => p,
        };
        let (r_vers, p2) = match get_u32(buf, p1) {
            Err(e) => { return Err(e); },
            Ok(p) => p,
        };
        let (r_netid, p3) = match get_string(buf, p2) {
            Err(e) => { return Err(e); },
            Ok(p) => p,
        };
        let (r_addr, p4) = match get_string(buf, p3) {
            Err(e) => { return Err(e); },
            Ok(p) => p,
        };
        let (r_owner, p5) = match get_string(buf, p4) {
            Err(e) => { return Err(e); },
            Ok(p) => p,
        };
        Ok((RPCB { r_prog, r_vers, r_netid, r_addr, r_owner }, p5))
    }

    /// The reading of bindings, as a function.
    pub open spec fn spec_parsing() -> spec_fn(Seq<u8>) -> Result<(RpcbView, Seq<u8>), XdrError> {
        |buf: Seq<u8>| RPCB::parse(buf)
    }

    /// Reads a list of bindings from the front of `buf`.
    pub open spec fn parse_list(buf: Seq<u8>) -> Result<(Seq<RpcbView>, Seq<u8>), XdrError> {
        parse_list(buf, RPCB::spec_parsing())
    }

    /// A list of bindings that can be encoded is read back from its
    /// encoding, binding for binding and in order.
    pub proof fn lemma_list_round_trip(items: Seq<RpcbView>, tail: Seq<u8>)
        requires
            forall|i: int| 0 <= i < items.len() ==> RPCB::spec_encodable(#[trigger] items[i]),
        ensures
            RPCB::parse_list(RPCB::spec_encode_list(items) + tail) == Ok::<
                (Seq<RpcbView>, Seq<u8>),
                XdrError,
            >((items, tail)),
    {
        let encoding = RPCB::spec_encoding();
        let parse = RPCB::spec_parsing();
        assert forall|i: int, t: Seq<u8>| 0 <= i < items.len() implies #[trigger] parse(
            encoding(items[i]) + t,
        ) == Ok::<(RpcbView, Seq<u8>), XdrError>((items[i], t)) by {
            RPCB::lemma_round_trip(items[i], t);
        }
        crate::xdr::lemma_parse_list_round_trip(items, encoding, parse, tail);
    }

    /// Reads a list of bindings at `pos`: the bindings in their order, and
    /// the position behind the terminator.
    pub fn decode_list(buf: &[u8], pos: usize) -> (r: Result<(Vec<RPCB>, usize), XdrError>)
        requires
            pos <= buf@.len(),
        ensures
            match RPCB::parse_list(buf@.skip(pos as int)) {
                Ok((v, rest)) => r matches Ok((w, next)) && RPCB::views(w@) == v && pos <= next
                    <= buf@.len() && rest == buf@.skip(next as int),
                Err(e) => r == Err::<(Vec<RPCB>, usize), XdrError>(e),
            },
    {
        let ghost parse = RPCB::spec_parsing();
        let ghost whole = parse_list(buf@.skip(pos as int), parse);
        let mut items: Vec<RPCB> = Vec::new();
        let mut at: usize = pos;
        assert(RPCB::views(items@) =~= Seq::<RpcbView>::empty());
        loop
            invariant_except_break
                whole == match parse_list(buf@.skip(at as int), parse) {
                    Ok((more, rest)) => Ok::<(Seq<RpcbView>, Seq<u8>), XdrError>(
                        (RPCB::views(items@) + more, rest),
                    ),
                    Err(e) => Err(e),
                },
            invariant
                pos <= at <= buf@.len(),
                parse == RPCB::spec_parsing(),
                whole == parse_list(buf@.skip(pos as int), parse),
            ensures
                match whole {
                    Ok((v, rest)) => RPCB::views(items@) == v && pos <= at <= buf@.len() && rest
                        == buf@.skip(at as int),
                    Err(e) => false,
                },
            decreases buf@.len() - at,
        {
            let (present, behind) = match get_u32(buf, at) {
                Err(e) => { return Err(e); },
                Ok(p) => p,
            };
            if present == 0 {
                assert(RPCB::views(items@) + Seq::<RpcbView>::empty() =~= RPCB::views(items@));
                at = behind;
                break;
            }
            if present != 1 {
                return Err(XdrError::InvalidOptional);
            }
            let (item, after) = match RPCB::decode(buf, behind) {
                Err(e) => { return Err(e); },
                Ok(p) => p,
            };
            proof {
                assert(buf@.skip(after as int).len() <= buf@.skip(behind as int).len());
                assert(RPCB::views(items@.push(item)) =~= RPCB::views(items@).push(item@));
                match parse_list(buf@.skip(after as int), parse) {
                    Ok((more, rest)) => {
                        assert(RPCB::views(items@).push(item@) + more =~= RPCB::views(items@) + (
                        seq![item@] + more));
                    },
                    Err(_) => {},
                }
            }
            items.push(item);
            at = after;
        }
        Ok((items, at))
    }

    /// Whether every binding of `items` can be encoded.
    pub open spec fn all_encodable(items: Seq<RPCB>) -> bool {
        forall|i: int| 0 <= i < items.len() ==> RPCB::spec_encodable(#[trigger] items[i]@)
    }

    /// Appends the encoding of a list of bindings: a present node for each,
    /// in order, written as the list is walked, and the terminator. Where a
    /// binding cannot be encoded, `out` is left as it was.
    pub fn encode_list(items: &Vec<RPCB>, out: &mut Vec<u8>) -> (r: Result<(), XdrError>)
        ensures
            RPCB::all_encodable(items@) ==> r is Ok && final(out)@ == old(out)@
                + RPCB::spec_encode_list(RPCB::views(items@)),
            !RPCB::all_encodable(items@) ==> r == Err::<(), XdrError>(XdrError::TooLong)
                && final(out)@ == old(out)@,
    {
        let ghost encoding = RPCB::spec_encoding();
        let mut k: usize = 0;
        while k < items.len()
            invariant
                k <= items@.len(),
                RPCB::all_encodable(items@.take(k as int)),
                out@ == old(out)@,
            decreases items@.len() - k,
        {
            if !items[k].encodable() {
                return Err(XdrError::TooLong);
            }
            assert(RPCB::all_encodable(items@.take(k + 1))) by {
                assert forall|i: int| 0 <= i < k + 1 implies RPCB::spec_encodable(
                    #[trigger] items@.take(k + 1)[i]@,
                ) by {
                    if i < k {
                        assert(items@.take(k as int)[i] == items@[i]);
                    }
                }
            }
            k += 1;
        }
        assert(items@.take(k as int) =~= items@);
        let mut i: usize = 0;
        assert(RPCB::views(items@).take(0) =~= Seq::<RpcbView>::empty());
        assert(out@ =~= old(out)@ + spec_nodes(RPCB::views(items@).take(0), encoding));
        while i < items.len()
            invariant
                i <= items@.len(),
                encoding == RPCB::spec_encoding(),
                RPCB::all_encodable(items@),
                out@ == old(out)@ + spec_nodes(RPCB::views(items@).take(i as int), encoding),
            decreases items@.len() - i,
        {
            put_u32(out, 1);
            let _ = items[i].encode(out);
            proof {
                let views = RPCB::views(items@);
                crate::xdr::lemma_nodes_push(views.take(i as int), views[i as int], encoding);
                assert(views.take(i + 1) =~= views.take(i as int).push(views[i as int]));
                assert(out@ =~= old(out)@ + spec_nodes(views.take(i + 1), encoding));
            }
            i += 1;
        }
        assert(RPCB::views(items@).take(i as int) =~= RPCB::views(items@));
        put_u32(out, 0);
        assert(out@ =~= old(out)@ + RPCB::spec_encode_list(RPCB::views(items@)));
        Ok(())
    }
}

/// A node of the list of bindings that a dump returns.
#[derive(Debug, PartialEq)]
pub struct RPList {
    /// The binding of this node.
    pub rpcb_map: RPCB,
    /// The next node: none or one.
    pub rpcb_next: Vec<Box<RPList>>,
}

impl RPList {
    /// Whether every node of the chain has at most one next node.
    pub open spec fn spec_well_formed(&self) -> bool
        decreases self,
    {
        self.rpcb_next@.len() <= 1 && (self.rpcb_next@.len() == 1
            ==> self.rpcb_next@[0].spec_well_formed())
    }

    /// The bindings of the chain, the first node's first.
    pub open spec fn spec_elements(&self) -> Seq<RPCB>
        decreases self,
    {
        if self.rpcb_next@.len() > 0 {
            seq![self.rpcb_map] + self.rpcb_next@[0].spec_elements()
        } else {
            seq![self.rpcb_map]
        }
    }

    /// Whether every binding of the chain can be encoded.
    fn encodable(&self) -> (r: bool)
        requires
            self.spec_well_formed(),
        ensures
            r == RPCB::all_encodable(self.spec_elements()),
        decreases self,
    {
        if !self.rpcb_map.encodable() {
            assert(self.spec_elements()[0] == self.rpcb_map);
            return false;
        }
        if self.rpcb_next.len() > 0 {
            let rest = self.rpcb_next[0].encodable();
            proof {
                let tail = self.rpcb_next@[0].spec_elements();
                let all = self.spec_elements();
                assert(all =~= seq![self.rpcb_map] + tail);
                if rest {
                    assert forall|i: int| 0 <= i < all.len() implies RPCB::spec_encodable(
                        #[trigger] all[i]@,
                    ) by {
                        if i > 0 {
                            assert(all[i] == tail[i - 1]);
                        }
                    }
                } else {
                    let i = choose|i: int| 0 <= i < tail.len() && !RPCB::spec_encodable(tail[i]@);
                    assert(all[i + 1] == tail[i]);
                }
            }
            rest
        } else {
            true
        }
    }

    /// Appends the present nodes of the chain.
    fn encode_nodes(&self, out: &mut Vec<u8>)
        requires
            self.spec_well_formed(),
            RPCB::all_encodable(self.spec_elements()),
        ensures
            final(out)@ == old(out)@ + spec_nodes(
                RPCB::views(self.spec_elements()),
                RPCB::spec_encoding(),
            ),
        decreases self,
    {
        let ghost encoding = RPCB::spec_encoding();
        let ghost all = self.spec_elements();
        assert(all[0] == self.rpcb_map);
        put_u32(out, 1);
        let _ = self.rpcb_map.encode(out);
        proof {
            crate::xdr::lemma_nodes_front(RPCB::views(all), encoding);
        }
        if self.rpcb_next.len() > 0 {
            let ghost rest = self.rpcb_next@[0].spec_elements();
            assert(all =~= seq![self.rpcb_map] + rest);
            assert(RPCB::views(all).skip(1) =~= RPCB::views(rest));
            assert(RPCB::all_encodable(rest)) by {
                assert forall|i: int| 0 <= i < rest.len() implies RPCB::spec_encodable(
                    #[trigger] rest[i]@,
                ) by {
                    assert(all[i + 1] == rest[i]);
                }
            }
            self.rpcb_next[0].encode_nodes(out);
            assert(out@ =~= old(out)@ + (spec_u32(1) + RPCB::spec_encode(self.rpcb_map@)
                + spec_nodes(RPCB::views(rest), encoding)));
        } else {
            assert(RPCB::views(all).skip(1) =~= Seq::<RpcbView>::empty());
            assert(out@ =~= old(out)@ + (spec_u32(1) + RPCB::spec_encode(self.rpcb_map@)
                + spec_nodes(Seq::<RpcbView>::empty(), encoding)));
        }
    }

    /// Appends the encoding of the chain as a list: what
    /// [`RPCB::encode_list`] appends for the bindings of the chain.
    pub fn encode(&self, out: &mut Vec<u8>) -> (r: Result<(), XdrError>)
        requires
            self.spec_well_formed(),
        ensures
            RPCB::all_encodable(self.spec_elements()) ==> r is Ok && final(out)@ == old(out)@
                + RPCB::spec_encode_list(RPCB::views(self.spec_elements())),
            !RPCB::all_encodable(self.spec_elements()) ==> r == Err::<(), XdrError>(
                XdrError::TooLong,
            ) && final(out)@ == old(out)@,
    {
        if !self.encodable() {
            return Err(XdrError::TooLong);
        }
        self.encode_nodes(out);
        put_u32(out, 0);
        assert(out@ =~= old(out)@ + RPCB::spec_encode_list(RPCB::views(self.spec_elements())));
        Ok(())
    }
}

impl CreateList for RPList {
    type Value = RPCB;

    open spec fn well_formed(&self) -> bool {
        self.spec_well_formed()
    }

    open spec fn elements(&self) -> Seq<RPCB> {
        self.spec_elements()
    }

    fn create_list(elements: Vec<RPCB>) -> (r: Option<Self>) {
        let mut left = elements;
        let mut next: Vec<Box<RPList>> = Vec::new();
        assert(left@.take(left@.len() as int) =~= left@);
        while left.len() > 0
            invariant
                left@ == elements@.take(left@.len() as int),
                left@.len() <= elements@.len(),
                next@.len() <= 1,
                next@.len() == 0 <==> left@.len() == elements@.len(),
                next@.len() == 1 ==> next@[0].spec_well_formed() && next@[0].spec_elements()
                    == elements@.skip(left@.len() as int),
            decreases left@.len(),
        {
            let ghost before = left@.len() as int;
            let rpcb_map = left.pop().unwrap();
            let node = RPList { rpcb_map, rpcb_next: next };
            proof {
                assert(rpcb_map == elements@[before - 1]);
                if node.rpcb_next@.len() == 1 {
                    assert(seq![rpcb_map] + elements@.skip(before) =~= elements@.skip(before - 1));
                } else {
                    assert(seq![rpcb_map] =~= elements@.skip(before - 1));
                }
                assert(left@ =~= elements@.take(before - 1));
            }
            next = Vec::new();
            next.push(Box::new(node));
        }
        match next.pop() {
            Some(first) => {
                assert(elements@.skip(0) =~= elements@);
                Some(*first)
            },
            None => None,
        }
    }
}

/// An address that a program can be reached at, with the transport it is on.
#[derive(Debug, PartialEq)]
pub struct Entry {
    /// The merged address.
    pub r_maddr: String,
    /// The network identifier of the transport.
    pub r_nc_netid: String,
    /// The semantics of the transport.
    pub r_nc_semantics: u32,
    /// The protocol family of the transport.
    pub r_nc_protofmly: String,
    /// The protocol of the transport.
    pub r_nc_proto: String,
}

/// A node of a list of entries.
#[derive(Debug, PartialEq)]
pub struct EntryList {
    /// The entry of this node.
    pub rpcb_entry_map: Entry,
    /// The next node: none or one.
    pub rpcb_entry_next: Vec<Box<EntryList>>,
}

/// The arguments of an indirect call.
#[derive(Debug, PartialEq)]
pub struct RmtCallArgs {
    /// The program to call.
    pub prog: u32,
    /// The version of the program.
    pub vers: u32,
    /// The procedure to call.
    pub proc: u32,
    /// The encoded arguments of the procedure.
    pub args: Vec<u8>,
}

/// The result of an indirect call.
#[derive(Debug, PartialEq)]
pub struct RmtCallRes {
    /// The universal address of the program that was called.
    pub addr: String,
    /// The encoded result of the procedure.
    pub results: Vec<u8>,
}

/// The statistics of one version of the program.
#[derive(Debug, PartialEq)]
pub struct Stat {
    /// How often each procedure was called.
    pub info: Proc,
    /// How often a binding was set.
    pub setinfo: i32,
    /// How often a binding was unset.
    pub unsetinfo: i32,
    /// The statistics of address lookups.
    pub addrinfo: Option<Box<AddrList>>,
    /// The statistics of indirect calls.
    pub rmtinfo: Option<Box<RmtCallList>>,
}

/// The statistics of the versions of the program, by version.
#[derive(Debug, PartialEq)]
pub struct StatByVers(pub [Stat; 3]);

/// A node of the statistics of address lookups.
#[derive(Debug, PartialEq)]
pub struct AddrList {
    /// The program number.
    pub prog: u32,
    /// The version of the program.
    pub vers: u32,
    /// The number of lookups that found an address.
    pub success: i32,
    /// The number of lookups that found none.
    pub failure: i32,
    /// The network identifier of the transport.
    pub netid: String,
    /// The next node: none or one.
    pub next: Vec<Box<AddrList>>,
}

/// How often each procedure was called.
#[derive(Debug, PartialEq)]
pub struct Proc(pub [i32; 13]);

/// A node of the statistics of indirect calls.
#[derive(Debug, PartialEq)]
pub struct RmtCallList {
    /// The program number.
    pub prog: u32,
    /// The version of the program.
    pub vers: u32,
    /// The procedure number.
    pub proc: u32,
    /// The number of calls that succeeded.
    pub success: i32,
    /// The number of calls that failed.
    pub failure: i32,
    /// The number of calls that were made indirectly.
    pub indirect: i32,
    /// The network identifier of the transport.
    pub netid: String,
    /// The next node: none or one.
    pub next: Vec<Box<RmtCallList>>,
}

} // verus!
