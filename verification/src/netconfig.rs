//! The network configuration: which network identifier stands for which
//! transport. Its text has one transport on a line, in seven fields that
//! white space separates; a line whose first field starts with `#` is a
//! comment, and a dash stands for an optional field that is not there.

use vstd::prelude::*;
use vstd::string::StringExecFns;
use vstd::utf8::encode_utf8;

verus! {

/// One transport of the network configuration.
#[derive(Debug, PartialEq)]
pub struct NetConfigEntry {
    /// The network identifier of the transport.
    pub network_id: String,
    /// The semantics of the transport.
    pub semantics: String,
    /// The flags of the transport, where it has any.
    pub flags: Option<String>,
    /// The protocol family.
    pub protofamily: String,
    /// The name of the protocol.
    pub protoname: String,
    /// The device of the transport, where it has one.
    pub device: Option<String>,
    /// The libraries that translate names to addresses, where there are any.
    pub nametoaddr_libs: Option<String>,
}

/// What an entry of the network configuration holds.
pub struct NetConfigEntryView {
    /// The network identifier of the transport.
    pub network_id: Seq<char>,
    /// The semantics of the transport.
    pub semantics: Seq<char>,
    /// The flags of the transport, where it has any.
    pub flags: Option<Seq<char>>,
    /// The protocol family.
    pub protofamily: Seq<char>,
    /// The name of the protocol.
    pub protoname: Seq<char>,
    /// The device of the transport, where it has one.
    pub device: Option<Seq<char>>,
    /// The libraries that translate names to addresses, where there are any.
    pub nametoaddr_libs: Option<Seq<char>>,
}

/// What an optional text holds.
pub open spec fn optional_view(text: Option<String>) -> Option<Seq<char>> {
    match text {
        Some(s) => Some(s@),
        None => None,
    }
}

impl View for NetConfigEntry {
    type V = NetConfigEntryView;

    open spec fn view(&self) -> NetConfigEntryView {
        NetConfigEntryView {
            network_id: self.network_id@,
            semantics: self.semantics@,
            flags: optional_view(self.flags),
            protofamily: self.protofamily@,
            protoname: self.protoname@,
            device: optional_view(self.device),
            nametoaddr_libs: optional_view(self.nametoaddr_libs),
        }
    }
}

impl NetConfigEntry {
    /// The views of a sequence of entries.
    pub open spec fn views(entries: Seq<NetConfigEntry>) -> Seq<NetConfigEntryView> {
        Seq::new(entries.len(), |i: int| entries[i]@)
    }
}

/// Why a text is no network configuration.
#[derive(Clone, Copy, Debug, PartialEq, Eq, Structural)]
pub enum NetConfigError {
    /// The line with this number, counted from 0, has fewer than seven
    /// fields and is no comment.
    MissingField(usize),
}

/// The value of an optional field of the network configuration: a dash
/// stands for a field that is not there.
pub open spec fn spec_netconfig_optional(item: Seq<char>) -> Option<Seq<char>> {
    if item == "-"@ {
        None
    } else {
        Some(item)
    }
}

/// The value of an optional field of the network configuration.
pub fn netconfig_optional(item: &str) -> (r: Option<String>)
    ensures
        optional_view(r) == spec_netconfig_optional(item@),
{
    let owned = String::from_str(item);
    if owned == String::from_str("-") {
        None
    } else {
        Some(owned)
    }
}

/// The lines of a text, as the standard library's `str::lines` splits it.
pub uninterp spec fn spec_text_lines(content: Seq<char>) -> Seq<Seq<char>>;

/// The words of a line, as the standard library's `str::split_whitespace`
/// splits it.
pub uninterp spec fn spec_text_words(line: Seq<char>) -> Seq<Seq<char>>;

/// The texts of a sequence of strings.
pub open spec fn texts(items: Seq<String>) -> Seq<Seq<char>> {
    Seq::new(items.len(), |i: int| items[i]@)
}

/// The lines of a text: what `str::lines` yields, each line as a string of
/// its own.
#[verifier::external_body]
fn text_lines(content: &str) -> (r: Vec<String>)
    ensures
        texts(r@) == spec_text_lines(content@),
{
    content.lines().map(String::from).collect()
}

/// The words of a line: what `str::split_whitespace` yields, each word as a
/// string of its own.
#[verifier::external_body]
fn text_words(line: &str) -> (r: Vec<String>)
    ensures
        texts(r@) == spec_text_words(line@),
{
    line.split_whitespace().map(String::from).collect()
}

/// Whether the fields of a line make it a comment: the first field starts
/// with `#`.
pub open spec fn spec_is_comment(words: Seq<Seq<char>>) -> bool {
    words.len() > 0 && encode_utf8(words[0]).len() > 0 && encode_utf8(words[0])[0] == 0x23
}

/// The entry that the fields of a line stand for: none for a comment, and
/// an error for a line with fewer than seven fields. Fields behind the
/// seventh are not looked at.
pub open spec fn spec_parse_line(words: Seq<Seq<char>>, line: usize) -> Result<
    Option<NetConfigEntryView>,
    NetConfigError,
> {
    if spec_is_comment(words) {
        Ok(None)
    } else if words.len() < 7 {
        Err(NetConfigError::MissingField(line))
    } else {
        Ok(
            Some(
                NetConfigEntryView {
                    network_id: words[0],
                    semantics: words[1],
                    flags: spec_netconfig_optional(words[2]),
                    protofamily: words[3],
                    protoname: words[4],
                    device: spec_netconfig_optional(words[5]),
                    nametoaddr_libs: spec_netconfig_optional(words[6]),
                },
            ),
        )
    }
}

/// The entries that the first `n` lines stand for, or the error of the
/// first line that has one.
pub open spec fn spec_parse_lines(lines: Seq<Seq<Seq<char>>>, n: int) -> Result<
    Seq<NetConfigEntryView>,
    NetConfigError,
>
    decreases n,
{
    if n <= 0 {
        Ok(Seq::empty())
    } else {
        match spec_parse_lines(lines, n - 1) {
            Err(e) => Err(e),
            Ok(entries) => match spec_parse_line(lines[n - 1], (n - 1) as usize) {
                Err(e) => Err(e),
                Ok(None) => Ok(entries),
                Ok(Some(entry)) => Ok(entries.push(entry)),
            },
        }
    }
}

/// The network configuration that a text holds: the entries of its lines,
/// in their order.
pub open spec fn spec_parse_netconfig(content: Seq<char>) -> Result<
    Seq<NetConfigEntryView>,
    NetConfigError,
> {
    let lines = spec_text_lines(content);
    spec_parse_lines(
        Seq::new(lines.len(), |i: int| spec_text_words(lines[i])),
        lines.len() as int,
    )
}

/// Reads the fields of one line.
pub fn parse_netconfig_line(words: &Vec<String>, line: usize) -> (r: Result<
    Option<NetConfigEntry>,
    NetConfigError,
>)
    ensures
        match spec_parse_line(texts(words@), line) {
            Ok(Some(entry)) => r matches Ok(Some(e)) && e@ == entry,
            Ok(None) => r matches Ok(None),
            Err(e) => r matches Err(f) && f == e,
        },
{
    if words.len() > 0 {
        let first = words[0].as_str().as_bytes();
        assert(texts(words@)[0] == words@[0]@);
        if first.len() > 0 && first[0] == 0x23 {
            return Ok(None);
        }
    }
    if words.len() < 7 {
        return Err(NetConfigError::MissingField(line));
    }
    proof {
        assert(texts(words@)[0] == words@[0]@);
        assert(texts(words@)[1] == words@[1]@);
        assert(texts(words@)[2] == words@[2]@);
        assert(texts(words@)[3] == words@[3]@);
        assert(texts(words@)[4] == words@[4]@);
        assert(texts(words@)[5] == words@[5]@);
        assert(texts(words@)[6] == words@[6]@);
    }
    Ok(
        Some(
            NetConfigEntry {
                network_id: words[0].clone(),
                semantics: words[1].clone(),
                flags: netconfig_optional(words[2].as_str()),
                protofamily: words[3].clone(),
                protoname: words[4].clone(),
                device: netconfig_optional(words[5].as_str()),
                nametoaddr_libs: netconfig_optional(words[6].as_str()),
            },
        ),
    )
}

/// Reads the network configuration from its text.
pub fn parse_netconfig(content: &str) -> (r: Result<Vec<NetConfigEntry>, NetConfigError>)
    ensures
        match spec_parse_netconfig(content@) {
            Ok(entries) => r matches Ok(v) && NetConfigEntry::views(v@) == entries,
            Err(e) => r matches Err(f) && f == e,
        },
{
    let lines = text_lines(content);
    let ghost all = Seq::new(
        spec_text_lines(content@).len(),
        |i: int| spec_text_words(spec_text_lines(content@)[i]),
    );
    let mut entries: Vec<NetConfigEntry> = Vec::new();
    let mut i: usize = 0;
    assert(NetConfigEntry::views(entries@) =~= Seq::<NetConfigEntryView>::empty());
    while i < lines.len()
        invariant
            i <= lines@.len(),
            texts(lines@) == spec_text_lines(content@),
            all == Seq::new(
                spec_text_lines(content@).len(),
                |i: int| spec_text_words(spec_text_lines(content@)[i]),
            ),
            spec_parse_lines(all, i as int) == Ok::<Seq<NetConfigEntryView>, NetConfigError>(
                NetConfigEntry::views(entries@),
            ),
        decreases lines@.len() - i,
    {
        let words = text_words(lines[i].as_str());
        proof {
            assert(texts(lines@)[i as int] == lines@[i as int]@);
            assert(all[i as int] == texts(words@));
            assert(texts(lines@).len() == lines@.len());
        }
        let ghost before = NetConfigEntry::views(entries@);
        match parse_netconfig_line(&words, i) {
            Err(e) => {
                proof {
                    lemma_parse_lines_error(all, i as int + 1, lines@.len() as int);
                }
                return Err(e);
            },
            Ok(None) => {},
            Ok(Some(entry)) => {
                entries.push(entry);
                assert(NetConfigEntry::views(entries@) =~= before.push(entry@));
            },
        }
        i += 1;
    }
    assert(texts(lines@).len() == lines@.len());
    Ok(entries)
}

/// An error in the first lines is the error of the whole text.
pub proof fn lemma_parse_lines_error(lines: Seq<Seq<Seq<char>>>, n: int, m: int)
    requires
        0 <= n <= m,
        spec_parse_lines(lines, n) is Err,
    ensures
        spec_parse_lines(lines, m) == spec_parse_lines(lines, n),
    decreases m - n,
{
    if n < m {
        lemma_parse_lines_error(lines, n, m - 1);
    }
}

} // verus!
