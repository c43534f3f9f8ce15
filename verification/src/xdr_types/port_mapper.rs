//! The structures of the port mapper, version 2 of the program.

use vstd::prelude::*;

use crate::xdr::{
    get_opaque, get_u32, parse_list, parse_opaque, parse_u32, put_opaque, put_u32, spec_list,
    spec_nodes, spec_opaque, spec_u32, XdrError,
};
use crate::xdr_types::CreateList;

verus! {

/// A mapping of a program and version on a transport protocol to a port.
#[derive(Clone, Copy, Debug, PartialEq, Eq, Structural)]
pub struct Mapping {
    /// The program number.
    pub prog: u32,
    /// The version of the program.
    pub vers: u32,
    /// The number of the transport protocol.
    pub prot: u32,
    /// The port that the program listens on.
    pub port: u32,
}

impl Mapping {
    /// The encoding of a mapping: its four fields, each as a word.
    pub open spec fn spec_encode(self) -> Seq<u8> {
        spec_u32(self.prog) + spec_u32(self.vers) + spec_u32(self.prot) + spec_u32(self.port)
    }

    /// Reads a mapping from the front of `buf`: the mapping and what follows
    /// it.
    pub open spec fn parse(buf: Seq<u8>) -> Result<(Mapping, Seq<u8>), XdrError> {
        match parse_u32(buf) {
            Err(e) => Err(e),
            Ok((prog, r1)) => match parse_u32(r1) {
                Err(e) => Err(e),
                Ok((vers, r2)) => match parse_u32(r2) {
                    Err(e) => Err(e),
                    Ok((prot, r3)) => match parse_u32(r3) {
                        Err(e) => Err(e),
                        Ok((port, r4)) => Ok((Mapping { prog, vers, prot, port }, r4)),
                    },
                },
            },
        }
    }

    /// The encoding of mappings, as a function.
    pub open spec fn spec_encoding() -> spec_fn(Mapping) -> Seq<u8> {
        |m: Mapping| m.spec_encode()
    }

    /// The encoding of a list of mappings.
    pub open spec fn spec_encode_list(items: Seq<Mapping>) -> Seq<u8> {
        spec_list(items, Mapping::spec_encoding())
    }

    /// A mapping is read back from its encoding, whatever follows it.
    pub proof fn lemma_round_trip(self, tail: Seq<u8>)
        ensures
            Mapping::parse(self.spec_encode() + tail) == Ok::<(Mapping, Seq<u8>), XdrError>(
                (self, tail),
            ),
            self.spec_encode().len() == 16,
    {
        let r3 = spec_u32(self.port) + tail;
        let r2 = spec_u32(self.prot) + r3;
        let r1 = spec_u32(self.vers) + r2;
        assert(self.spec_encode() + tail =~= spec_u32(self.prog) + r1);
        crate::xdr::lemma_parse_u32_round_trip(self.prog, r1);
        crate::xdr::lemma_parse_u32_round_trip(self.vers, r2);
        crate::xdr::lemma_parse_u32_round_trip(self.prot, r3);
        crate::xdr::lemma_parse_u32_round_trip(self.port, tail);
    }

    /// Fewer than sixteen bytes hold no mapping.
    pub proof fn lemma_truncated(buf: Seq<u8>)
        requires
            buf.len() < 16,
        ensures
            Mapping::parse(buf) == Err::<(Mapping, Seq<u8>), XdrError>(XdrError::UnexpectedEof),
    {
    }

    /// Appends the encoding of the mapping.
    pub fn encode(&self, out: &mut Vec<u8>)
        ensures
            final(out)@ == old(out)@ + self.spec_encode(),
    {
        put_u32(out, self.prog);
        put_u32(out, self.vers);
        put_u32(out, self.prot);
        put_u32(out, self.port);
        assert(out@ =~= old(out)@ + self.spec_encode());
    }

    /// Reads a mapping at `pos`: the mapping and the position behind it.
    pub fn decode(buf: &[u8], pos: usize) -> (r: Result<(Mapping, usize), XdrError>)
        requires
            pos <= buf@.len(),
        ensures
            match Mapping::parse(buf@.skip(pos as int)) {
                Ok((v, rest)) => r matches Ok((w, next)) && w == v && pos <= next <= buf@.len()
                    && rest == buf@.skip(next as int),
                Err(e) => r == Err::<(Mapping, usize), XdrError>(e),
            },
    {
        let (prog, p1) = match get_u32(buf, pos) {
            Err(e) => { return Err(e); },
            Ok(p) => p,
        };
        let (vers, p2) = match get_u32(buf, p1) {
            Err(e) => { return Err(e); },
            Ok(p) => p,
        };
        let (prot, p3) = match get_u32(buf, p2) {
            Err(e) => { return Err(e); },
            Ok(p) => p,
        };
        let (port, p4) = match get_u32(buf, p3) {
            Err(e) => { return Err(e); },
            Ok(p) => p,
        };
        Ok((Mapping { prog, vers, prot, port }, p4))
    }

    /// The reading of mappings, as a function.
    pub open spec fn spec_parsing() -> spec_fn(Seq<u8>) -> Result<(Mapping, Seq<u8>), XdrError> {
        |buf: Seq<u8>| Mapping::parse(buf)
    }

    /// Reads a list of mappings from the front of `buf`.
    pub open spec fn parse_list(buf: Seq<u8>) -> Result<(Seq<Mapping>, Seq<u8>), XdrError> {
        parse_list(buf, Mapping::spec_parsing())
    }

    /// A list of mappings is read back from its encoding, mapping for
    /// mapping and in order.
    pub proof fn lemma_list_round_trip(items: Seq<Mapping>, tail: Seq<u8>)
        ensures
            Mapping::parse_list(Mapping::spec_encode_list(items) + tail) == Ok::<
                (Seq<Mapping>, Seq<u8>),
                XdrError,
            >((items, tail)),
    {
        let encoding = Mapping::spec_encoding();
        let parse = Mapping::spec_parsing();
        assert forall|i: int, t: Seq<u8>| 0 <= i < items.len() implies #[trigger] parse(
            encoding(items[i]) + t,
        ) == Ok::<(Mapping, Seq<u8>), XdrError>((items[i], t)) by {
            items[i].lemma_round_trip(t);
        }
        crate::xdr::lemma_parse_list_round_trip(items, encoding, parse, tail);
    }

    /// Reads a list of mappings at `pos`: the mappings in their order, and
    /// the position behind the terminator.
    pub fn decode_list(buf: &[u8], pos: usize) -> (r: Result<(Vec<Mapping>, usize), XdrError>)
        requires
            pos <= buf@.len(),
        ensures
            match Mapping::parse_list(buf@.skip(pos as int)) {
                Ok((v, rest)) => r matches Ok((w, next)) && w@ == v && pos <= next <= buf@.len()
                    && rest == buf@.skip(next as int),
                Err(e) => r == Err::<(Vec<Mapping>, usize), XdrError>(e),
            },
    {
        let ghost parse = Mapping::spec_parsing();
        let ghost whole = parse_list(buf@.skip(pos as int), parse);
        let mut items: Vec<Mapping> = Vec::new();
        let mut at: usize = pos;
        assert(items@ + Seq::<Mapping>::empty() =~= Seq::<Mapping>::empty());
        loop
            invariant_except_break
                whole == match parse_list(buf@.skip(at as int), parse) {
                    Ok((more, rest)) => Ok::<(Seq<Mapping>, Seq<u8>), XdrError>(
                        (items@ + more, rest),
                    ),
                    Err(e) => Err(e),
                },
            invariant
                pos <= at <= buf@.len(),
                parse == Mapping::spec_parsing(),
                whole == parse_list(buf@.skip(pos as int), parse),
            ensures
                match whole {
                    Ok((v, rest)) => items@ == v && pos <= at <= buf@.len() && rest == buf@.skip(
                        at as int,
                    ),
                    Err(e) => false,
                },
            decreases buf@.len() - at,
        {
            let (present, behind) = match get_u32(buf, at) {
                Err(e) => { return Err(e); },
                Ok(p) => p,
            };
            if present == 0 {
                assert(items@ + Seq::<Mapping>::empty() =~= items@);
                at = behind;
                break;
            }
            if present != 1 {
                return Err(XdrError::InvalidOptional);
            }
            let (item, after) = match Mapping::decode(buf, behind) {
                Err(e) => { return Err(e); },
                Ok(p) => p,
            };
            proof {
                assert(buf@.skip(after as int).len() <= buf@.skip(behind as int).len());
                match parse_list(buf@.skip(after as int), parse) {
                    Ok((more, rest)) => {
                        assert(items@.push(item) + more =~= items@ + (seq![item] + more));
                    },
                    Err(_) => {},
                }
            }
            items.push(item);
            at = after;
        }
        Ok((items, at))
    }

    /// Appends the encoding of a list of mappings: a present node for each,
    /// in order, written as the list is walked, and the terminator.
    pub fn encode_list(items: &Vec<Mapping>, out: &mut Vec<u8>)
        ensures
            final(out)@ == old(out)@ + Mapping::spec_encode_list(items@),
    {
        let ghost encoding = Mapping::spec_encoding();
        let mut i: usize = 0;
        assert(out@ =~= old(out)@ + spec_nodes(items@.take(0), encoding));
        while i < items.len()
            invariant
                i <= items@.len(),
                encoding == Mapping::spec_encoding(),
                out@ == old(out)@ + spec_nodes(items@.take(i as int), encoding),
            decreases items@.len() - i,
        {
            put_u32(out, 1);
            items[i].encode(out);
            proof {
                crate::xdr::lemma_nodes_push(items@.take(i as int), items@[i as int], encoding);
                assert(items@.take(i + 1) =~= items@.take(i as int).push(items@[i as int]));
                assert(out@ =~= old(out)@ + spec_nodes(items@.take(i + 1), encoding));
            }
            i += 1;
        }
        assert(items@.take(i as int) =~= items@);
        put_u32(out, 0);
        assert(out@ =~= old(out)@ + Mapping::spec_encode_list(items@));
    }
}

/// A node of the list of mappings that a dump returns.
#[derive(Debug, PartialEq)]
pub struct PMapList {
    /// The mapping of this node.
    pub map: Mapping,
    /// The next node: none or one.
    pub next: Vec<Box<PMapList>>,
}

impl PMapList {
    /// Whether every node of the chain has at most one next node.
    pub open spec fn spec_well_formed(&self) -> bool
        decreases self,
    {
        self.next@.len() <= 1 && (self.next@.len() == 1 ==> self.next@[0].spec_well_formed())
    }

    /// The mappings of the chain, the first node's first.
    pub open spec fn spec_elements(&self) -> Seq<Mapping>
        decreases self,
    {
        if self.next@.len() > 0 {
            seq![self.map] + self.next@[0].spec_elements()
        } else {
            seq![self.map]
        }
    }

    /// Appends the present nodes of the chain.
    fn encode_nodes(&self, out: &mut Vec<u8>)
        requires
            self.spec_well_formed(),
        ensures
            final(out)@ == old(out)@ + spec_nodes(self.spec_elements(), Mapping::spec_encoding()),
        decreases self,
    {
        let ghost encoding = Mapping::spec_encoding();
        put_u32(out, 1);
        self.map.encode(out);
        proof {
            crate::xdr::lemma_nodes_front(self.spec_elements(), encoding);
        }
        if self.next.len() > 0 {
            let ghost rest = self.next@[0].spec_elements();
            assert(self.spec_elements().skip(1) =~= rest);
            self.next[0].encode_nodes(out);
            assert(out@ =~= old(out)@ + (spec_u32(1) + self.map.spec_encode() + spec_nodes(
                rest,
                encoding,
            )));
        } else {
            assert(self.spec_elements().skip(1) =~= Seq::<Mapping>::empty());
            assert(out@ =~= old(out)@ + (spec_u32(1) + self.map.spec_encode() + spec_nodes(
                Seq::<Mapping>::empty(),
                encoding,
            )));
        }
    }

    /// Appends the encoding of the chain as a list: what
    /// [`Mapping::encode_list`] appends for the mappings of the chain.
    pub fn encode(&self, out: &mut Vec<u8>)
        requires
            self.spec_well_formed(),
        ensures
            final(out)@ == old(out)@ + Mapping::spec_encode_list(self.spec_elements()),
    {
        self.encode_nodes(out);
        put_u32(out, 0);
        assert(out@ =~= old(out)@ + Mapping::spec_encode_list(self.spec_elements()));
    }
}

impl CreateList for PMapList {
    type Value = Mapping;

    open spec fn well_formed(&self) -> bool {
        self.spec_well_formed()
    }

    open spec fn elements(&self) -> Seq<Mapping> {
        self.spec_elements()
    }

    fn create_list(elements: Vec<Mapping>) -> (r: Option<Self>) {
        let mut left = elements;
        let mut next: Vec<Box<PMapList>> = Vec::new();
        assert(left@.take(left@.len() as int) =~= left@);
        while left.len() > 0
            invariant
                left@ == elements@.take(left@.len() as int),
                left@.len() <= elements@.len(),
                next@.len() <= 1,
                next@.len() == 0 <==> left@.len() == elements@.len(),
                next@.len() == 1 ==> next@[0].spec_well_formed() && next@[0].spec_elements()
                    == elements@.skip(left@.len() as int),
            decreases left@.len(),
        {
            let ghost before = left@.len() as int;
            let map = left.pop().unwrap();
            let node = PMapList { map, next };
            proof {
                assert(map == elements@[before - 1]);
                if node.next@.len() == 1 {
                    assert(seq![map] + elements@.skip(before) =~= elements@.skip(before - 1));
                } else {
                    assert(seq![map] =~= elements@.skip(before - 1));
                }
                assert(left@ =~= elements@.take(before - 1));
            }
            next = Vec::new();
            next.push(Box::new(node));
        }
        match next.pop() {
            Some(first) => {
                assert(elements@.skip(0) =~= elements@);
                Some(*first)
            },
            None => None,
        }
    }
}

/// The arguments of an indirect call.
#[derive(Debug, PartialEq)]
pub struct CallArgs {
    /// The program to call.
    pub prog: u32,
    /// The version of the program.
    pub vers: u32,
    /// The procedure to call.
    pub proc: u32,
    /// The encoded arguments of the procedure.
    pub args: Vec<u8>,
}

/// What the arguments of an indirect call hold.
pub struct CallArgsView {
    /// The program to call.
    pub prog: u32,
    /// The version of the program.
    pub vers: u32,
    /// The procedure to call.
    pub proc: u32,
    /// The encoded arguments of the procedure.
    pub args: Seq<u8>,
}

impl View for CallArgs {
    type V = CallArgsView;

    open spec fn view(&self) -> CallArgsView {
        CallArgsView { prog: self.prog, vers: self.vers, proc: self.proc, args: self.args@ }
    }
}

impl CallArgs {
    /// The encoding of the arguments: three words and the opaque arguments of
    /// the procedure.
    pub open spec fn spec_encode(v: CallArgsView) -> Seq<u8> {
        spec_u32(v.prog) + spec_u32(v.vers) + spec_u32(v.proc) + spec_opaque(v.args)
    }

    /// Reads the arguments of an indirect call from the front of `buf`.
    pub open spec fn parse(buf: Seq<u8>) -> Result<(CallArgsView, Seq<u8>), XdrError> {
        match parse_u32(buf) {
            Err(e) => Err(e),
            Ok((prog, r1)) => match parse_u32(r1) {
                Err(e) => Err(e),
                Ok((vers, r2)) => match parse_u32(r2) {
                    Err(e) => Err(e),
                    Ok((proc, r3)) => match parse_opaque(r3) {
                        Err(e) => Err(e),
                        Ok((args, r4)) => Ok((CallArgsView { prog, vers, proc, args }, r4)),
                    },
                },
            },
        }
    }

    /// The arguments are read back from their encoding, whatever follows it.
    pub proof fn lemma_round_trip(v: CallArgsView, tail: Seq<u8>)
        requires
            v.args.len() <= u32::MAX,
        ensures
            CallArgs::parse(CallArgs::spec_encode(v) + tail) == Ok::<
                (CallArgsView, Seq<u8>),
                XdrError,
            >((v, tail)),
    {
        let r3 = spec_opaque(v.args) + tail;
        let r2 = spec_u32(v.proc) + r3;
        let r1 = spec_u32(v.vers) + r2;
        assert(CallArgs::spec_encode(v) + tail =~= spec_u32(v.prog) + r1);
        crate::xdr::lemma_parse_u32_round_trip(v.prog, r1);
        crate::xdr::lemma_parse_u32_round_trip(v.vers, r2);
        crate::xdr::lemma_parse_u32_round_trip(v.proc, r3);
        crate::xdr::lemma_parse_opaque_round_trip(v.args, tail);
    }

    /// Appends the encoding of the arguments, or leaves `out` as it is where
    /// the arguments of the procedure are too long for a 32-bit length.
    pub fn encode(&self, out: &mut Vec<u8>) -> (r: Result<(), XdrError>)
        ensures
            self.args@.len() <= u32::MAX ==> r is Ok && final(out)@ == old(out)@
                + CallArgs::spec_encode(self@),
            self.args@.len() > u32::MAX ==> r == Err::<(), XdrError>(XdrError::TooLong)
                && final(out)@ == old(out)@,
    {
        if self.args.len() > 0xffff_ffff {
            return Err(XdrError::TooLong);
        }
        put_u32(out, self.prog);
        put_u32(out, self.vers);
        put_u32(out, self.proc);
        let r = put_opaque(out, self.args.as_slice());
        assert(out@ =~= old(out)@ + CallArgs::spec_encode(self@));
        r
    }

    /// Reads the arguments of an indirect call at `pos`.
    pub fn decode(buf: &[u8], pos: usize) -> (r: Result<(CallArgs, usize), XdrError>)
        requires
            pos <= buf@.len(),
        ensures
            match CallArgs::parse(buf@.skip(pos as int)) {
                Ok((v, rest)) => r matches Ok((w, next)) && w@ == v && pos <= next <= buf@.len()
                    && rest == buf@.skip(next as int),
                Err(e) => r == Err::<(CallArgs, usize), XdrError>(e),
            },
    {
        let (prog, p1) = match get_u32(buf, pos) {
            Err(e) => { return Err(e); },
            Ok(p) => p,
        };
        let (vers, p2) = match get_u32(buf, p1) {
            Err(e) => { return Err(e); },
            Ok(p) => p,
        };
        let (proc, p3) = match get_u32(buf, p2) {
            Err(e) => { return Err(e); },
            Ok(p) => p,
        };
        let (args, p4) = match get_opaque(buf, p3) {
            Err(e) => { return Err(e); },
            Ok(p) => p,
        };
        Ok((CallArgs { prog, vers, proc, args }, p4))
    }
}

/// The result of an indirect call.
#[derive(Debug, PartialEq)]
pub struct CallResult {
    /// The port of the program that was called.
    pub port: u32,
    /// The encoded result of the procedure.
    pub res: Vec<u8>,
}

} // verus!
