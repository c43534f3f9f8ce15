//! The External Data Representation wire format: big-endian 32-bit words,
//! booleans as words, and length-prefixed opaque data and text padded with
//! zero bytes to a multiple of four.
//!
//! Every encoder appends to a byte vector and every decoder reads at a
//! position of a byte slice, so that structures are encoded as the plain
//! concatenation of their fields.

use vstd::prelude::*;
use vstd::slice::{slice_subrange, slice_to_vec};
use vstd::utf8::{decode_utf8, encode_utf8, valid_utf8};

verus! {

/// Why a value could not be encoded or decoded.
#[derive(Clone, Copy, Debug, PartialEq, Eq, Structural)]
pub enum XdrError {
    /// The input ends before the value does.
    UnexpectedEof,
    /// A boolean word that is neither 0 nor 1.
    InvalidBool,
    /// The discriminant of an optional value that is neither 0 nor 1.
    InvalidOptional,
    /// Text that is not UTF-8.
    InvalidUtf8,
    /// Variable-length data longer than a 32-bit length can say.
    TooLong,
}

/// The four big-endian bytes of a 32-bit word.
#[verifier::opaque]
pub open spec fn spec_u32(v: u32) -> Seq<u8> {
    seq![
        (v / 0x100_0000) as u8,
        (v / 0x1_0000 % 0x100) as u8,
        (v / 0x100 % 0x100) as u8,
        (v % 0x100) as u8,
    ]
}

/// The word that four big-endian bytes stand for.
#[verifier::opaque]
pub open spec fn spec_word(b0: u8, b1: u8, b2: u8, b3: u8) -> u32 {
    (b0 as int * 0x100_0000 + b1 as int * 0x1_0000 + b2 as int * 0x100 + b3 as int) as u32
}

/// A boolean is the word 1 or the word 0.
pub open spec fn spec_bool(b: bool) -> Seq<u8> {
    spec_u32(if b { 1u32 } else { 0u32 })
}

/// The number of zero bytes that follow `n` bytes of data.
pub open spec fn pad_len(n: int) -> int {
    (4 - n % 4) % 4
}

/// `n` zero bytes.
pub open spec fn zeros(n: int) -> Seq<u8> {
    Seq::new(n as nat, |i: int| 0u8)
}

/// Opaque data: its length as a word, the bytes, and the padding.
#[verifier::opaque]
pub open spec fn spec_opaque(data: Seq<u8>) -> Seq<u8> {
    spec_u32(data.len() as u32) + data + zeros(pad_len(data.len() as int))
}

/// Text is the opaque encoding of its UTF-8 bytes.
pub open spec fn spec_string(text: Seq<char>) -> Seq<u8> {
    spec_opaque(encode_utf8(text))
}

/// Reads a word from the front of `buf`: the word and what follows it.
pub open spec fn parse_u32(buf: Seq<u8>) -> Result<(u32, Seq<u8>), XdrError> {
    if buf.len() < 4 {
        Err(XdrError::UnexpectedEof)
    } else {
        Ok((spec_word(buf[0], buf[1], buf[2], buf[3]), buf.skip(4)))
    }
}

/// Reads a boolean from the front of `buf`.
pub open spec fn parse_bool(buf: Seq<u8>) -> Result<(bool, Seq<u8>), XdrError> {
    match parse_u32(buf) {
        Err(e) => Err(e),
        Ok((v, rest)) => if v == 0 {
            Ok((false, rest))
        } else if v == 1 {
            Ok((true, rest))
        } else {
            Err(XdrError::InvalidBool)
        },
    }
}

/// Reads opaque data from the front of `buf`. The padding must be there;
/// what it holds is not looked at.
#[verifier::opaque]
pub open spec fn parse_opaque(buf: Seq<u8>) -> Result<(Seq<u8>, Seq<u8>), XdrError> {
    match parse_u32(buf) {
        Err(e) => Err(e),
        Ok((n, rest)) => if rest.len() < n + pad_len(n as int) {
            Err(XdrError::UnexpectedEof)
        } else {
            Ok((rest.take(n as int), rest.skip(n + pad_len(n as int))))
        },
    }
}

/// Reads text from the front of `buf`.
pub open spec fn parse_string(buf: Seq<u8>) -> Result<(Seq<char>, Seq<u8>), XdrError> {
    match parse_opaque(buf) {
        Err(e) => Err(e),
        Ok((bytes, rest)) => if valid_utf8(bytes) {
            Ok((decode_utf8(bytes), rest))
        } else {
            Err(XdrError::InvalidUtf8)
        },
    }
}

/// Reading back the bytes of a word gives the word.
pub proof fn lemma_word_round_trip(v: u32)
    ensures
        spec_u32(v).len() == 4,
        spec_word(spec_u32(v)[0], spec_u32(v)[1], spec_u32(v)[2], spec_u32(v)[3]) == v,
{
    reveal(spec_u32);
    reveal(spec_word);
}

/// The encoding of a word has four bytes.
pub broadcast proof fn lemma_u32_len(v: u32)
    ensures
        (#[trigger] spec_u32(v)).len() == 4,
{
    reveal(spec_u32);
}

/// A word that is encoded and followed by anything is read back, and the
/// rest is what followed.
pub proof fn lemma_parse_u32_round_trip(v: u32, tail: Seq<u8>)
    ensures
        parse_u32(spec_u32(v) + tail) == Ok::<(u32, Seq<u8>), XdrError>((v, tail)),
{
    lemma_word_round_trip(v);
    let buf = spec_u32(v) + tail;
    assert(buf.skip(4) =~= tail);
}

/// A boolean that is encoded and followed by anything is read back.
pub proof fn lemma_parse_bool_round_trip(b: bool, tail: Seq<u8>)
    ensures
        parse_bool(spec_bool(b) + tail) == Ok::<(bool, Seq<u8>), XdrError>((b, tail)),
{
    lemma_parse_u32_round_trip(if b { 1u32 } else { 0u32 }, tail);
}

/// Opaque data of a length that fits a word is read back from its encoding.
pub proof fn lemma_parse_opaque_round_trip(data: Seq<u8>, tail: Seq<u8>)
    requires
        data.len() <= u32::MAX,
    ensures
        parse_opaque(spec_opaque(data) + tail) == Ok::<(Seq<u8>, Seq<u8>), XdrError>((data, tail)),
{
    reveal(spec_opaque);
    reveal(parse_opaque);
    let n = data.len() as u32;
    let p = pad_len(data.len() as int);
    assert(0 <= p < 4);
    let padding = zeros(p);
    assert(padding.len() == p);
    let body = data + padding + tail;
    assert(spec_opaque(data) + tail =~= spec_u32(n) + body);
    lemma_parse_u32_round_trip(n, body);
    assert(body.len() == n + p + tail.len());
    assert(body.take(n as int) =~= data);
    assert(body.skip(n + p) =~= tail);
}

/// Text whose UTF-8 form has a length that fits a word is read back from its
/// encoding.
pub proof fn lemma_parse_string_round_trip(text: Seq<char>, tail: Seq<u8>)
    requires
        encode_utf8(text).len() <= u32::MAX,
    ensures
        parse_string(spec_string(text) + tail) == Ok::<(Seq<char>, Seq<u8>), XdrError>(
            (text, tail),
        ),
{
    lemma_parse_opaque_round_trip(encode_utf8(text), tail);
    vstd::utf8::encode_utf8_valid_utf8(text);
    vstd::utf8::encode_utf8_decode_utf8(text);
}

/// The encoding of opaque data is a whole number of words.
pub proof fn lemma_opaque_aligned(data: Seq<u8>)
    ensures
        spec_opaque(data).len() == 4 + data.len() + pad_len(data.len() as int),
        spec_opaque(data).len() % 4 == 0,
        0 <= pad_len(data.len() as int) < 4,
{
    broadcast use lemma_u32_len;

    reveal(spec_opaque);
}

/// Appends the encoding of a 32-bit word.
pub fn put_u32(out: &mut Vec<u8>, v: u32)
    ensures
        final(out)@ == old(out)@ + spec_u32(v),
{
    out.push((v / 0x100_0000) as u8);
    out.push((v / 0x1_0000 % 0x100) as u8);
    out.push((v / 0x100 % 0x100) as u8);
    out.push((v % 0x100) as u8);
    proof {
        reveal(spec_u32);
    }
    assert(out@ =~= old(out)@ + spec_u32(v));
}

/// Appends the encoding of a boolean.
pub fn put_bool(out: &mut Vec<u8>, b: bool)
    ensures
        final(out)@ == old(out)@ + spec_bool(b),
{
    put_u32(out, if b { 1 } else { 0 });
}

/// Appends the encoding of opaque data, or leaves `out` as it is where the
/// data is too long for a 32-bit length.
pub fn put_opaque(out: &mut Vec<u8>, data: &[u8]) -> (r: Result<(), XdrError>)
    ensures
        data@.len() <= u32::MAX ==> r is Ok && final(out)@ == old(out)@ + spec_opaque(data@),
        data@.len() > u32::MAX ==> r == Err::<(), XdrError>(XdrError::TooLong) && final(out)@
            == old(out)@,
{
    proof {
        reveal(spec_opaque);
    }
    let n: usize = data.len();
    if n > 0xffff_ffff {
        return Err(XdrError::TooLong);
    }
    put_u32(out, n as u32);
    let mut i: usize = 0;
    while i < n
        invariant
            i <= n,
            n == data@.len(),
            out@ == old(out)@ + spec_u32(n as u32) + data@.take(i as int),
        decreases n - i,
    {
        out.push(data[i]);
        assert(data@.take(i + 1) =~= data@.take(i as int).push(data@[i as int]));
        i += 1;
        assert(out@ =~= old(out)@ + spec_u32(n as u32) + data@.take(i as int));
    }
    assert(data@.take(n as int) =~= data@);
    let pad: usize = (4 - n % 4) % 4;
    let mut k: usize = 0;
    while k < pad
        invariant
            k <= pad,
            out@ == old(out)@ + spec_u32(n as u32) + data@ + zeros(k as int),
        decreases pad - k,
    {
        out.push(0u8);
        k += 1;
        assert(out@ =~= old(out)@ + spec_u32(n as u32) + data@ + zeros(k as int));
    }
    assert(out@ =~= old(out)@ + spec_opaque(data@));
    Ok(())
}

/// Appends the encoding of text, or leaves `out` as it is where the text is
/// too long for a 32-bit length.
pub fn put_string(out: &mut Vec<u8>, text: &str) -> (r: Result<(), XdrError>)
    ensures
        encode_utf8(text@).len() <= u32::MAX ==> r is Ok && final(out)@ == old(out)@
            + spec_string(text@),
        encode_utf8(text@).len() > u32::MAX ==> r == Err::<(), XdrError>(XdrError::TooLong)
            && final(out)@ == old(out)@,
{
    put_opaque(out, text.as_bytes())
}

/// Reads a word at `pos`: the word and the position behind it.
pub fn get_u32(buf: &[u8], pos: usize) -> (r: Result<(u32, usize), XdrError>)
    requires
        pos <= buf@.len(),
    ensures
        match parse_u32(buf@.skip(pos as int)) {
            Ok((v, rest)) => r matches Ok((w, next)) && w == v && pos <= next <= buf@.len()
                && rest == buf@.skip(next as int),
            Err(e) => r == Err::<(u32, usize), XdrError>(e),
        },
{
    if buf.len() - pos < 4 {
        return Err(XdrError::UnexpectedEof);
    }
    let b0 = buf[pos];
    let b1 = buf[pos + 1];
    let b2 = buf[pos + 2];
    let b3 = buf[pos + 3];
    let v: u32 = (b0 as u32) * 0x100_0000 + (b1 as u32) * 0x1_0000 + (b2 as u32) * 0x100 + (
    b3 as u32);
    proof {
        reveal(spec_word);
    }
    assert(buf@.skip(pos as int).skip(4) =~= buf@.skip(pos + 4));
    Ok((v, pos + 4))
}

/// Reads a boolean at `pos`.
pub fn get_bool(buf: &[u8], pos: usize) -> (r: Result<(bool, usize), XdrError>)
    requires
        pos <= buf@.len(),
    ensures
        match parse_bool(buf@.skip(pos as int)) {
            Ok((v, rest)) => r matches Ok((w, next)) && w == v && pos <= next <= buf@.len()
                && rest == buf@.skip(next as int),
            Err(e) => r == Err::<(bool, usize), XdrError>(e),
        },
{
    match get_u32(buf, pos) {
        Err(e) => Err(e),
        Ok((v, next)) => if v == 0 {
            Ok((false, next))
        } else if v == 1 {
            Ok((true, next))
        } else {
            Err(XdrError::InvalidBool)
        },
    }
}

/// Reads opaque data at `pos`: a copy of the bytes and the position behind
/// the padding.
pub fn get_opaque(buf: &[u8], pos: usize) -> (r: Result<(Vec<u8>, usize), XdrError>)
    requires
        pos <= buf@.len(),
    ensures
        match parse_opaque(buf@.skip(pos as int)) {
            Ok((v, rest)) => r matches Ok((w, next)) && w@ == v && pos <= next <= buf@.len()
                && rest == buf@.skip(next as int),
            Err(e) => r == Err::<(Vec<u8>, usize), XdrError>(e),
        },
{
    proof {
        reveal(parse_opaque);
    }
    let (n, start) = match get_u32(buf, pos) {
        Err(e) => { return Err(e); },
        Ok(p) => p,
    };
    let len: usize = n as usize;
    let pad: usize = (4 - len % 4) % 4;
    if buf.len() - start < len || buf.len() - start - len < pad {
        return Err(XdrError::UnexpectedEof);
    }
    let data = slice_to_vec(slice_subrange(buf, start, start + len));
    proof {
        let rest = buf@.skip(start as int);
        assert(rest.take(len as int) =~= buf@.subrange(start as int, start + len));
        assert(rest.skip(len + pad) =~= buf@.skip(start + len + pad));
    }
    Ok((data, start + len + pad))
}

/// What the standard library's `String::from_utf8` makes of `bytes`: the
/// text they encode where they are valid UTF-8, and nothing where they are
/// not.
#[verifier::external_body]
fn string_from_utf8(bytes: Vec<u8>) -> (r: Option<String>)
    ensures
        r is Some <==> valid_utf8(bytes@),
        r matches Some(s) ==> s@ == decode_utf8(bytes@),
{
    String::from_utf8(bytes).ok()
}

/// Turns bytes into the text that they encode in UTF-8.
pub fn text_of(bytes: Vec<u8>) -> (r: Result<String, XdrError>)
    ensures
        valid_utf8(bytes@) ==> (r matches Ok(s) && s@ == decode_utf8(bytes@) && encode_utf8(s@)
            == bytes@),
        !valid_utf8(bytes@) ==> r == Err::<String, XdrError>(XdrError::InvalidUtf8),
{
    proof {
        if valid_utf8(bytes@) {
            vstd::utf8::decode_utf8_encode_utf8(bytes@);
        }
    }
    match string_from_utf8(bytes) {
        Some(s) => Ok(s),
        None => Err(XdrError::InvalidUtf8),
    }
}

/// Reads text at `pos`.
pub fn get_string(buf: &[u8], pos: usize) -> (r: Result<(String, usize), XdrError>)
    requires
        pos <= buf@.len(),
    ensures
        match parse_string(buf@.skip(pos as int)) {
            Ok((v, rest)) => r matches Ok((w, next)) && w@ == v && pos <= next <= buf@.len()
                && rest == buf@.skip(next as int),
            Err(e) => r == Err::<(String, usize), XdrError>(e),
        },
{
    let (bytes, next) = match get_opaque(buf, pos) {
        Err(e) => { return Err(e); },
        Ok(p) => p,
    };
    match text_of(bytes) {
        Ok(s) => Ok((s, next)),
        Err(e) => Err(e),
    }
}

} // verus!

verus! {

/// The present nodes of an optional list: for each item, in order, the
/// discriminant 1 and the item's encoding.
pub open spec fn spec_nodes<T>(items: Seq<T>, encoding: spec_fn(T) -> Seq<u8>) -> Seq<u8>
    decreases items.len(),
{
    if items.len() == 0 {
        Seq::empty()
    } else {
        spec_nodes(items.drop_last(), encoding) + spec_u32(1) + encoding(items.last())
    }
}

/// An optional list: one present node for each item, in order, and the
/// discriminant 0 behind the last. It holds no count.
pub open spec fn spec_list<T>(items: Seq<T>, encoding: spec_fn(T) -> Seq<u8>) -> Seq<u8> {
    spec_nodes(items, encoding) + spec_u32(0)
}

/// The list without items is the discriminant 0 alone.
pub proof fn lemma_list_empty<T>(encoding: spec_fn(T) -> Seq<u8>)
    ensures
        spec_list(Seq::<T>::empty(), encoding) == spec_u32(0),
{
    assert(spec_nodes(Seq::<T>::empty(), encoding) + spec_u32(0) =~= spec_u32(0));
}

/// The nodes of a list start with the node of its first item.
pub proof fn lemma_nodes_front<T>(items: Seq<T>, encoding: spec_fn(T) -> Seq<u8>)
    requires
        items.len() > 0,
    ensures
        spec_nodes(items, encoding) == spec_u32(1) + encoding(items[0]) + spec_nodes(
            items.skip(1),
            encoding,
        ),
    decreases items.len(),
{
    if items.len() == 1 {
        assert(items.drop_last() =~= Seq::<T>::empty());
        assert(items.skip(1) =~= Seq::<T>::empty());
        assert(spec_nodes(items, encoding) =~= spec_u32(1) + encoding(items[0]) + spec_nodes(
            items.skip(1),
            encoding,
        ));
    } else {
        let front = items.drop_last();
        lemma_nodes_front(front, encoding);
        assert(front.skip(1) =~= items.skip(1).drop_last());
        assert(items.skip(1).last() == items.last());
        assert(front[0] == items[0]);
        assert(spec_nodes(items, encoding) =~= spec_u32(1) + encoding(items[0]) + spec_nodes(
            items.skip(1),
            encoding,
        ));
    }
}

/// The nodes of a list with one more item behind it.
pub proof fn lemma_nodes_push<T>(items: Seq<T>, item: T, encoding: spec_fn(T) -> Seq<u8>)
    ensures
        spec_nodes(items.push(item), encoding) == spec_nodes(items, encoding) + spec_u32(1)
            + encoding(item),
{
    assert(items.push(item).drop_last() =~= items);
}

/// A list of `n` items whose encodings have `width` bytes each has `n`
/// nodes of `4 + width` bytes and a terminator of 4.
pub proof fn lemma_list_len<T>(items: Seq<T>, encoding: spec_fn(T) -> Seq<u8>, width: nat)
    requires
        forall|i: int| 0 <= i < items.len() ==> (#[trigger] encoding(items[i])).len() == width,
    ensures
        spec_nodes(items, encoding).len() == items.len() * (4 + width),
        spec_list(items, encoding).len() == items.len() * (4 + width) + 4,
    decreases items.len(),
{
    broadcast use lemma_u32_len;

    if items.len() > 0 {
        let front = items.drop_last();
        assert forall|i: int| 0 <= i < front.len() implies (#[trigger] encoding(front[i])).len()
            == width by {
            assert(front[i] == items[i]);
        }
        lemma_list_len(front, encoding, width);
        assert(encoding(items[items.len() - 1]).len() == width);
        assert(items.len() * (4 + width) == front.len() * (4 + width) + (4 + width))
            by (nonlinear_arith)
            requires
                items.len() == front.len() + 1,
        ;
    }
}

/// Reads an optional list from the front of `buf`: a discriminant is read
/// again and again, an item behind each 1, until a 0 ends the list. Any
/// other discriminant is an error.
pub open spec fn parse_list<T>(
    buf: Seq<u8>,
    parse: spec_fn(Seq<u8>) -> Result<(T, Seq<u8>), XdrError>,
) -> Result<(Seq<T>, Seq<u8>), XdrError>
    decreases buf.len(),
{
    match parse_u32(buf) {
        Err(e) => Err(e),
        Ok((present, rest)) => if present == 0 {
            Ok((Seq::empty(), rest))
        } else if present == 1 {
            match parse(rest) {
                Err(e) => Err(e),
                Ok((item, after)) => if after.len() <= rest.len() {
                    match parse_list(after, parse) {
                        Err(e) => Err(e),
                        Ok((items, end)) => Ok((seq![item] + items, end)),
                    }
                } else {
                    Err(XdrError::UnexpectedEof)
                },
            }
        } else {
            Err(XdrError::InvalidOptional)
        },
    }
}

/// A list whose items are read back from their encodings is read back from
/// its encoding, item for item and in order, whatever follows it.
pub proof fn lemma_parse_list_round_trip<T>(
    items: Seq<T>,
    encoding: spec_fn(T) -> Seq<u8>,
    parse: spec_fn(Seq<u8>) -> Result<(T, Seq<u8>), XdrError>,
    tail: Seq<u8>,
)
    requires
        forall|i: int, t: Seq<u8>|
            0 <= i < items.len() ==> #[trigger] parse(encoding(items[i]) + t) == Ok::<
                (T, Seq<u8>),
                XdrError,
            >((items[i], t)),
    ensures
        parse_list(spec_list(items, encoding) + tail, parse) == Ok::<(Seq<T>, Seq<u8>), XdrError>(
            (items, tail),
        ),
    decreases items.len(),
{
    broadcast use lemma_u32_len;

    let whole = spec_list(items, encoding) + tail;
    if items.len() == 0 {
        assert(whole =~= spec_u32(0) + tail);
        lemma_parse_u32_round_trip(0, tail);
        assert(items =~= Seq::<T>::empty());
    } else {
        let rest_items = items.skip(1);
        lemma_nodes_front(items, encoding);
        let rest_list = spec_list(rest_items, encoding) + tail;
        let behind = encoding(items[0]) + rest_list;
        assert(whole =~= spec_u32(1) + behind);
        lemma_parse_u32_round_trip(1, behind);
        assert(parse(behind) == Ok::<(T, Seq<u8>), XdrError>((items[0], rest_list)));
        assert forall|i: int, t: Seq<u8>| 0 <= i < rest_items.len() implies #[trigger] parse(
            encoding(rest_items[i]) + t,
        ) == Ok::<(T, Seq<u8>), XdrError>((rest_items[i], t)) by {
            assert(rest_items[i] == items[i + 1]);
        }
        lemma_parse_list_round_trip(rest_items, encoding, parse, tail);
        assert(seq![items[0]] + rest_items =~= items);
        assert(rest_list.len() <= behind.len());
    }
}

} // verus!
