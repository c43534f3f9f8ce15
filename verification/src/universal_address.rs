//! Universal addresses: the text `a.b.c.d.p1.p2` that stands for the IPv4
//! address `a.b.c.d` and the port whose big-endian bytes are `p1` and `p2`.
//!
//! The text is described by its UTF-8 bytes, which for an address that was
//! encoded here are ASCII digits and dots.

use vstd::prelude::*;
use vstd::utf8::{encode_utf8, valid_utf8};

use crate::error::{AcceptedStatusError, RpcBindResult};
use crate::xdr::text_of;

verus! {

/// An IPv4 address: its four bytes, the first one first.
#[derive(Clone, Copy, Debug, PartialEq, Eq, Structural)]
pub struct Ipv4Addr {
    /// The first byte.
    pub a: u8,
    /// The second byte.
    pub b: u8,
    /// The third byte.
    pub c: u8,
    /// The fourth byte.
    pub d: u8,
}

impl Ipv4Addr {
    /// The four bytes of the address.
    pub open spec fn spec_octets(self) -> (u8, u8, u8, u8) {
        (self.a, self.b, self.c, self.d)
    }

    /// The address `a.b.c.d`.
    pub fn new(a: u8, b: u8, c: u8, d: u8) -> (r: Self)
        ensures
            r == (Ipv4Addr { a, b, c, d }),
    {
        Ipv4Addr { a, b, c, d }
    }

    /// The address `0.0.0.0`.
    pub fn unspecified() -> (r: Self)
        ensures
            r == (Ipv4Addr { a: 0, b: 0, c: 0, d: 0 }),
    {
        Ipv4Addr { a: 0, b: 0, c: 0, d: 0 }
    }

    /// The four bytes of the address.
    pub fn octets(&self) -> (r: [u8; 4])
        ensures
            (r[0], r[1], r[2], r[3]) == self.spec_octets(),
    {
        [self.a, self.b, self.c, self.d]
    }
}

/// An IPv4 address with a port.
#[derive(Clone, Copy, Debug, PartialEq, Eq, Structural)]
pub struct SocketAddrV4 {
    /// The address of the socket.
    pub ip: Ipv4Addr,
    /// The port of the socket.
    pub port: u16,
}

impl SocketAddrV4 {
    /// The address of the socket.
    pub open spec fn spec_ip(self) -> Ipv4Addr {
        self.ip
    }

    /// The port of the socket.
    pub open spec fn spec_port(self) -> u16 {
        self.port
    }

    /// The socket address of `ip` and `port`.
    pub fn new(ip: Ipv4Addr, port: u16) -> (r: Self)
        ensures
            r == (SocketAddrV4 { ip, port }),
    {
        SocketAddrV4 { ip, port }
    }

    /// The address of the socket.
    pub fn ip(&self) -> (r: Ipv4Addr)
        ensures
            r == self.ip,
    {
        self.ip
    }

    /// The port of the socket.
    pub fn port(&self) -> (r: u16)
        ensures
            r == self.port,
    {
        self.port
    }
}

/// The byte of the dot that separates the parts of a universal address.
pub const DOT: u8 = 0x2e;

/// The byte of the plus sign that may stand in front of a number.
pub const PLUS: u8 = 0x2b;

/// The byte of the digit zero.
pub const ZERO: u8 = 0x30;

/// Whether `b` is one of the digits `0` to `9`.
pub open spec fn is_digit(b: u8) -> bool {
    0x30 <= b <= 0x39
}

/// The decimal digits of `n`, without leading zeros.
pub open spec fn decimal(n: nat) -> Seq<u8>
    decreases n,
{
    if n < 10 {
        seq![(0x30 + n) as u8]
    } else {
        decimal(n / 10).push((0x30 + n % 10) as u8)
    }
}

/// The number that a run of decimal digits stands for.
pub open spec fn digits_value(digits: Seq<u8>) -> nat
    decreases digits.len(),
{
    if digits.len() == 0 {
        0
    } else {
        (digits_value(digits.drop_last()) * 10 + (digits.last() - 0x30)) as nat
    }
}

/// Whether every byte of `s` is a decimal digit.
pub open spec fn all_digits(s: Seq<u8>) -> bool {
    forall|i: int| 0 <= i < s.len() ==> is_digit(#[trigger] s[i])
}

/// The byte that a part of a universal address stands for: one or more
/// decimal digits, with or without a plus sign in front and with any number
/// of leading zeros, whose value is at most 255.
pub open spec fn parse_byte(token: Seq<u8>) -> Option<u8> {
    let digits = if token.len() > 0 && token[0] == PLUS {
        token.skip(1)
    } else {
        token
    };
    if digits.len() > 0 && all_digits(digits) && digits_value(digits) <= 255 {
        Some(digits_value(digits) as u8)
    } else {
        None
    }
}

/// The position of the first dot in `s`, or the length of `s` where it holds
/// none.
pub open spec fn dot_index(s: Seq<u8>) -> int
    decreases s.len(),
{
    if s.len() == 0 || s[0] == DOT {
        0
    } else {
        1 + dot_index(s.skip(1))
    }
}

/// Takes the next part off a text that is split at its dots and reads it as a
/// byte. `input` is what is left of the text, `None` once the part behind the
/// last dot has been taken; the result holds the byte and what is left then.
pub open spec fn take_byte(input: Option<Seq<u8>>) -> Option<(u8, Option<Seq<u8>>)> {
    match input {
        None => None,
        Some(s) => {
            let i = dot_index(s);
            match parse_byte(s.take(i)) {
                None => None,
                Some(v) => Some(
                    (
                        v,
                        if i < s.len() {
                            Some(s.skip(i + 1))
                        } else {
                            None
                        },
                    ),
                ),
            }
        },
    }
}

/// The socket address that six bytes stand for: four of the address, and
/// the high and the low byte of the port.
pub open spec fn spec_socket(a: u8, b: u8, c: u8, d: u8, p1: u8, p2: u8) -> SocketAddrV4 {
    SocketAddrV4 { ip: Ipv4Addr { a, b, c, d }, port: (p1 as int * 256 + p2 as int) as u16 }
}

/// The address that a universal address stands for: the first six parts of
/// the text, split at its dots, each read as a byte. Parts behind the sixth
/// are not looked at. `None` where a part is missing or is no byte.
pub open spec fn spec_decode_universal_address(text: Seq<u8>) -> Option<SocketAddrV4> {
    match take_byte(Some(text)) {
        None => None,
        Some((a, s1)) => match take_byte(s1) {
            None => None,
            Some((b, s2)) => match take_byte(s2) {
                None => None,
                Some((c, s3)) => match take_byte(s3) {
                    None => None,
                    Some((d, s4)) => match take_byte(s4) {
                        None => None,
                        Some((p1, s5)) => match take_byte(s5) {
                            None => None,
                            Some((p2, _)) => Some(spec_socket(a, b, c, d, p1, p2)),
                        },
                    },
                },
            },
        },
    }
}

/// The universal address of a socket address, as bytes: the four bytes of
/// the address and the high and the low byte of the port, in decimal, with
/// dots between them.
pub open spec fn spec_universal_address(addr: SocketAddrV4) -> Seq<u8> {
    decimal(addr.ip.a as nat) + seq![DOT] + decimal(addr.ip.b as nat) + seq![DOT] + decimal(
        addr.ip.c as nat,
    ) + seq![DOT] + decimal(addr.ip.d as nat) + seq![DOT] + decimal((addr.port / 256) as nat)
        + seq![DOT] + decimal((addr.port % 256) as nat)
}

/// Whether every byte of `s` is ASCII and none is a dot or a plus sign.
pub open spec fn plain_digits(s: Seq<u8>) -> bool {
    s.len() > 0 && all_digits(s)
}

/// The digits of a number are digits, and stand for the number.
pub proof fn lemma_decimal(n: nat)
    ensures
        plain_digits(decimal(n)),
        digits_value(decimal(n)) == n,
        n < 10 ==> decimal(n).len() == 1,
        10 <= n < 100 ==> decimal(n).len() == 2,
        100 <= n < 1000 ==> decimal(n).len() == 3,
    decreases n,
{
    if n < 10 {
        let s = decimal(n);
        assert(s.drop_last().len() == 0);
        assert(digits_value(s) == n) by {
            reveal_with_fuel(digits_value, 2);
        }
    } else {
        lemma_decimal(n / 10);
        let s = decimal(n);
        assert(s.drop_last() =~= decimal(n / 10));
        assert(s.last() == (0x30 + n % 10) as u8);
    }
}

/// A longer run of digits stands for a number that is no smaller than the
/// one that any of its prefixes stands for.
pub proof fn lemma_digits_value_monotonic(digits: Seq<u8>, k: int)
    requires
        all_digits(digits),
        0 <= k <= digits.len(),
    ensures
        digits_value(digits.take(k)) <= digits_value(digits),
    decreases digits.len() - k,
{
    if k == digits.len() {
        assert(digits.take(k) =~= digits);
    } else {
        let front = digits.drop_last();
        assert(front.take(k) =~= digits.take(k));
        assert(all_digits(front)) by {
            assert forall|i: int| 0 <= i < front.len() implies is_digit(#[trigger] front[i]) by {
                assert(front[i] == digits[i]);
            }
        }
        lemma_digits_value_monotonic(front, k);
        assert(is_digit(digits[digits.len() - 1]));
    }
}

/// The first dot of a text that starts with digits and a dot is the dot
/// behind the digits.
pub proof fn lemma_dot_index_digits(digits: Seq<u8>, tail: Seq<u8>)
    requires
        all_digits(digits),
    ensures
        dot_index(digits + seq![DOT] + tail) == digits.len(),
        dot_index(digits) == digits.len(),
    decreases digits.len(),
{
    let s = digits + seq![DOT] + tail;
    if digits.len() == 0 {
        assert(s[0] == DOT);
    } else {
        assert(is_digit(digits[0]));
        assert(s[0] == digits[0]);
        let rest = digits.skip(1);
        assert(all_digits(rest)) by {
            assert forall|i: int| 0 <= i < rest.len() implies is_digit(#[trigger] rest[i]) by {
                assert(rest[i] == digits[i + 1]);
            }
        }
        lemma_dot_index_digits(rest, tail);
        assert(s.skip(1) =~= rest + seq![DOT] + tail);
    }
}

/// A number of at most 255, written in decimal and followed by a dot and more
/// text, is taken off as that number, and the text behind the dot is left.
pub proof fn lemma_take_byte_decimal(n: u8, tail: Seq<u8>)
    ensures
        take_byte(Some(decimal(n as nat) + seq![DOT] + tail)) == Some((n, Some(tail))),
        take_byte(Some(decimal(n as nat))) == Some((n, None::<Seq<u8>>)),
{
    let digits = decimal(n as nat);
    lemma_decimal(n as nat);
    lemma_dot_index_digits(digits, tail);
    let s = digits + seq![DOT] + tail;
    assert(s.take(digits.len() as int) =~= digits);
    assert(s.skip(digits.len() as int + 1) =~= tail);
    assert(digits.take(digits.len() as int) =~= digits);
    assert(is_digit(digits[0]));
}

/// Round trip: the universal address of a socket address stands for that
/// socket address.
pub proof fn lemma_universal_address_round_trip(addr: SocketAddrV4)
    ensures
        spec_decode_universal_address(spec_universal_address(addr)) == Some(addr),
{
    let p1 = (addr.port / 256) as u8;
    let p2 = (addr.port % 256) as u8;
    let t5 = decimal(p2 as nat);
    let t4 = decimal(p1 as nat) + seq![DOT] + t5;
    let t3 = decimal(addr.ip.d as nat) + seq![DOT] + t4;
    let t2 = decimal(addr.ip.c as nat) + seq![DOT] + t3;
    let t1 = decimal(addr.ip.b as nat) + seq![DOT] + t2;
    let t0 = decimal(addr.ip.a as nat) + seq![DOT] + t1;
    assert(spec_universal_address(addr) =~= t0);
    lemma_take_byte_decimal(addr.ip.a, t1);
    lemma_take_byte_decimal(addr.ip.b, t2);
    lemma_take_byte_decimal(addr.ip.c, t3);
    lemma_take_byte_decimal(addr.ip.d, t4);
    lemma_take_byte_decimal(p1, t5);
    lemma_take_byte_decimal(p2, Seq::empty());
}

/// Appends the decimal digits of `n`.
fn put_decimal(out: &mut Vec<u8>, n: u8)
    ensures
        final(out)@ == old(out)@ + decimal(n as nat),
{
    proof {
        reveal_with_fuel(decimal, 3);
    }
    if n >= 100 {
        out.push(ZERO + n / 100);
    }
    if n >= 10 {
        out.push(ZERO + n / 10 % 10);
    }
    out.push(ZERO + n % 10);
    assert(out@ =~= old(out)@ + decimal(n as nat));
}

/// Appends a dot.
fn put_dot(out: &mut Vec<u8>)
    ensures
        final(out)@ == old(out)@ + seq![DOT],
{
    out.push(DOT);
    assert(out@ =~= old(out)@ + seq![DOT]);
}

/// Every byte of the universal address of a socket address is ASCII, so the
/// address is valid UTF-8, and it has between 11 and 23 bytes.
pub proof fn lemma_universal_address_ascii(addr: SocketAddrV4)
    ensures
        forall|i: int|
            0 <= i < spec_universal_address(addr).len() ==> #[trigger] spec_universal_address(
                addr,
            )[i] <= 0x7f,
        valid_utf8(spec_universal_address(addr)),
        11 <= spec_universal_address(addr).len() <= 23,
{
    let text = spec_universal_address(addr);
    let t0 = decimal(addr.ip.a as nat);
    let t1 = decimal(addr.ip.b as nat);
    let t2 = decimal(addr.ip.c as nat);
    let t3 = decimal(addr.ip.d as nat);
    let t4 = decimal((addr.port / 256) as nat);
    let t5 = decimal((addr.port % 256) as nat);
    lemma_decimal(addr.ip.a as nat);
    lemma_decimal(addr.ip.b as nat);
    lemma_decimal(addr.ip.c as nat);
    lemma_decimal(addr.ip.d as nat);
    lemma_decimal((addr.port / 256) as nat);
    lemma_decimal((addr.port % 256) as nat);
    assert forall|i: int| 0 <= i < text.len() implies #[trigger] text[i] <= 0x7f by {
        let n0 = t0.len() as int;
        let n1 = n0 + 1 + t1.len();
        let n2 = n1 + 1 + t2.len();
        let n3 = n2 + 1 + t3.len();
        let n4 = n3 + 1 + t4.len();
        if i < n0 {
            assert(text[i] == t0[i]);
        } else if i == n0 {
        } else if i < n1 {
            assert(text[i] == t1[i - n0 - 1]);
        } else if i == n1 {
        } else if i < n2 {
            assert(text[i] == t2[i - n1 - 1]);
        } else if i == n2 {
        } else if i < n3 {
            assert(text[i] == t3[i - n2 - 1]);
        } else if i == n3 {
        } else if i < n4 {
            assert(text[i] == t4[i - n3 - 1]);
        } else if i == n4 {
        } else {
            assert(text[i] == t5[i - n4 - 1]);
        }
    }
    assert(text.subrange(0, 0) =~= Seq::<u8>::empty());
    assert(valid_utf8(text.subrange(0, 0)));
    vstd::utf8::partial_valid_utf8_extend_ascii_block(text, 0, text.len() as int);
    assert(text.subrange(0, text.len() as int) =~= text);
}

/// The universal address of a socket address: `a.b.c.d.p1.p2`, every number
/// in decimal without leading zeros.
pub fn encode_universal_address(addr: &SocketAddrV4) -> (r: String)
    ensures
        encode_utf8(r@) == spec_universal_address(*addr),
{
    let mut out: Vec<u8> = Vec::new();
    let port: u16 = addr.port;
    put_decimal(&mut out, addr.ip.a);
    put_dot(&mut out);
    put_decimal(&mut out, addr.ip.b);
    put_dot(&mut out);
    put_decimal(&mut out, addr.ip.c);
    put_dot(&mut out);
    put_decimal(&mut out, addr.ip.d);
    put_dot(&mut out);
    put_decimal(&mut out, (port / 256) as u8);
    put_dot(&mut out);
    put_decimal(&mut out, (port % 256) as u8);
    proof {
        assert(out@ =~= spec_universal_address(*addr));
        lemma_universal_address_ascii(*addr);
    }
    text_of(out).unwrap()
}

/// Reads the part of `text` that starts at `start` and ends before the next
/// dot, as a byte: the byte, and the position behind the dot where there is
/// one.
#[verifier::loop_isolation(false)]
fn take_byte_at(text: &[u8], start: Option<usize>) -> (r: Option<(u8, Option<usize>)>)
    requires
        start matches Some(p) ==> p <= text@.len(),
    ensures
        match take_byte(
            match start {
                Some(p) => Some(text@.skip(p as int)),
                None => None,
            },
        ) {
            None => r is None,
            Some((v, rest)) => r matches Some((w, next)) && w == v && match rest {
                None => next is None,
                Some(s) => next matches Some(q) && q <= text@.len() && s == text@.skip(q as int),
            },
        },
{
    let begin: usize = match start {
        None => { return None; },
        Some(p) => p,
    };
    let ghost s = text@.skip(begin as int);
    let mut end: usize = begin;
    while end < text.len() && text[end] != DOT
        invariant
            begin <= end <= text@.len(),
            s == text@.skip(begin as int),
            dot_index(s) == (end - begin) + dot_index(text@.skip(end as int)),
        decreases text@.len() - end,
    {
        assert(text@.skip(end as int).skip(1) =~= text@.skip(end + 1));
        end += 1;
    }
    assert(dot_index(s) == end - begin);
    let ghost token = s.take(end - begin);
    assert(token =~= text@.subrange(begin as int, end as int));
    let mut i: usize = begin;
    if i < end && text[i] == PLUS {
        i += 1;
    }
    let ghost digits = text@.subrange(i as int, end as int);
    assert(digits =~= if token.len() > 0 && token[0] == PLUS {
        token.skip(1)
    } else {
        token
    });
    if i == end {
        return None;
    }
    let first: usize = i;
    let mut value: u16 = 0;
    while i < end
        invariant
            first <= i <= end <= text@.len(),
            digits == text@.subrange(first as int, end as int),
            all_digits(digits.take(i - first)),
            value == digits_value(digits.take(i - first)),
            value <= 255,
        decreases end - i,
    {
        let b = text[i];
        let ghost upto = digits.take(i - first + 1);
        assert(upto.drop_last() =~= digits.take(i - first));
        assert(upto.last() == b);
        if b < 0x30 || b > 0x39 {
            assert(!is_digit(digits[i - first]));
            return None;
        }
        assert(all_digits(upto)) by {
            assert forall|k: int| 0 <= k < upto.len() implies is_digit(#[trigger] upto[k]) by {
                if k < upto.len() - 1 {
                    assert(upto[k] == digits.take(i - first)[k]);
                }
            }
        }
        let next: u16 = value * 10 + (b - 0x30) as u16;
        if next > 255 {
            proof {
                if all_digits(digits) {
                    lemma_digits_value_monotonic(digits, i - first + 1);
                }
            }
            return None;
        }
        value = next;
        i += 1;
    }
    assert(digits.take(end - first) =~= digits);
    let after: Option<usize> = if end < text.len() {
        assert(s.skip(end - begin + 1) =~= text@.skip(end + 1));
        Some(end + 1)
    } else {
        None
    };
    Some((value as u8, after))
}

/// The socket address that a universal address stands for, or
/// `GarbageArgs` where one of its first six parts is missing or is no byte.
pub fn decode_universal_address(universal_address: &str) -> (r: RpcBindResult<SocketAddrV4>)
    ensures
        match spec_decode_universal_address(encode_utf8(universal_address@)) {
            Some(addr) => r == Ok::<SocketAddrV4, AcceptedStatusError>(addr),
            None => r == Err::<SocketAddrV4, AcceptedStatusError>(AcceptedStatusError::GarbageArgs),
        },
{
    let text = universal_address.as_bytes();
    assert(text@.skip(0) =~= text@);
    let (a, s1) = match take_byte_at(text, Some(0)) {
        None => { return Err(AcceptedStatusError::GarbageArgs); },
        Some(p) => p,
    };
    let (b, s2) = match take_byte_at(text, s1) {
        None => { return Err(AcceptedStatusError::GarbageArgs); },
        Some(p) => p,
    };
    let (c, s3) = match take_byte_at(text, s2) {
        None => { return Err(AcceptedStatusError::GarbageArgs); },
        Some(p) => p,
    };
    let (d, s4) = match take_byte_at(text, s3) {
        None => { return Err(AcceptedStatusError::GarbageArgs); },
        Some(p) => p,
    };
    let (p1, s5) = match take_byte_at(text, s4) {
        None => { return Err(AcceptedStatusError::GarbageArgs); },
        Some(p) => p,
    };
    let (p2, _) = match take_byte_at(text, s5) {
        None => { return Err(AcceptedStatusError::GarbageArgs); },
        Some(p) => p,
    };
    let port: u16 = (p1 as u16) * 256 + (p2 as u16);
    Ok(SocketAddrV4::new(Ipv4Addr::new(a, b, c, d), port))
}

} // verus!
