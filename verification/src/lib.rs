//! SBIF: a self-describing tagged binary serialization format.
//!
//! A stream is a fixed header (length-prefixed magic `"SBIF"`, a version
//! byte, and a compression descriptor) followed by one tagged value,
//! optionally compressed with Deflate, Gzip or Zlib.  Every value is
//! preceded by a one-byte tag; all multi-byte integers are big-endian.

use vstd::prelude::*;

pub mod data_ids;
pub mod wire;
pub mod compress;
pub mod text;
pub mod value;
pub mod se;
pub mod de;
pub mod laws;

verus! {

/// The compression transport written into the header and used for the body.
///
/// The numeric level is carried verbatim in the header; on decode only the
/// algorithm (not the level) is needed to pick the matching decompressor.
#[derive(Debug, Clone, Copy, PartialEq, Eq, Structural)]
pub enum Compression {
    Plain,
    Deflate(u32),
    Gzip(u32),
    Zlib(u32),
}

impl Default for Compression {
    /// The default transport: Gzip at effort level 6.
    fn default() -> (r: Self)
        ensures
            r == Compression::Gzip(6u32),
    {
        Compression::Gzip(6)
    }
}

/// What a tag-mismatch error expected to find.
#[derive(Debug, Clone, Copy, PartialEq, Eq, Structural)]
pub enum ExpectedId {
    /// One specific tag.
    Exact(u8),
    /// Any tag that starts a value.
    AnyValue,
    /// Any tag that starts an enum variant.
    AnyVariant,
}

/// Everything that can go wrong while encoding or decoding a stream.
#[derive(Debug)]
pub enum Error {
    /// An underlying transport failure, carrying its rendered message.
    IoError(String),
    /// The stream ended before the current item was complete.
    UnexpectedEof,
    /// Bytes on a string or char path were not valid UTF-8.
    FromUtf8Error,
    /// The compression kind byte of the header is outside the fixed set.
    InvalidCompression(u8),
    /// An error message supplied by a caller of the codec.
    Custom(String),
    /// A composite was offered for encoding without a known count.
    LengthRequired,
    /// Unit-style access to a data-carrying variant, or the reverse.
    UnexpectedString,
    /// The key/value alternation of a map decode was broken.
    InvalidMapAccess,
    /// The header magic was not the expected name; carries what was found.
    InvalidHeader(Vec<u8>),
    /// The observed tag differs from the tag the caller's shape implies.
    InvalidDataId { expected: ExpectedId, found: u8 },
    /// The header version is not the one this codec supports.
    InvalidVersion { expected: u8, found: u8 },
    /// A declared arity differs from the encoded count.
    InvalidLength { expected: usize, actual: usize },
}

/// The fixed header magic: the bytes of `"SBIF"`.
pub open spec fn magic_bytes() -> Seq<u8> {
    seq![0x53u8, 0x42u8, 0x49u8, 0x46u8]
}

/// The single format version this codec reads and writes.
pub const FORMAT_VERSION: u8 = 1;

/// The mathematical model of a [`FileHeader`].
pub ghost struct HeaderView {
    pub compression: Compression,
    pub version: u8,
    pub header_name: Seq<u8>,
}

/// The stream preamble: magic name, version, compression descriptor.
/// Written once before any value bytes, read and validated once on decode.
#[derive(Debug)]
pub struct FileHeader {
    pub compression: Compression,
    pub version: u8,
    pub header_name: Vec<u8>,
}

impl View for FileHeader {
    type V = HeaderView;

    open spec fn view(&self) -> HeaderView {
        HeaderView {
            compression: self.compression,
            version: self.version,
            header_name: self.header_name@,
        }
    }
}

/// The header bytes that announce a compression setting: the kind byte,
/// followed by the big-endian effort level for every kind but `Plain`.
pub open spec fn spec_compression_bytes(c: Compression) -> Seq<u8> {
    match c {
        Compression::Plain => seq![0u8],
        Compression::Deflate(v) => seq![1u8] + wire::spec_be32(v),
        Compression::Gzip(v) => seq![2u8] + wire::spec_be32(v),
        Compression::Zlib(v) => seq![3u8] + wire::spec_be32(v),
    }
}

/// The byte encoding of a header: length-prefixed name, version byte,
/// compression descriptor.
pub open spec fn spec_header_bytes(h: HeaderView) -> Seq<u8> {
    wire::spec_be16(h.header_name.len() as u16) + h.header_name + seq![h.version]
        + spec_compression_bytes(h.compression)
}

/// What a header read can find wrong, in the order the read checks it.
pub ghost enum HeaderIssue {
    /// The stream ended inside the fixed header.
    TruncatedInput,
    /// The name bytes are not valid UTF-8.
    NameNotUtf8,
    /// The name is not the fixed magic; carries what was found.
    WrongMagic(Seq<u8>),
    /// The version byte is not the supported version.
    WrongVersion(u8),
    /// The compression kind byte is outside the fixed set.
    UnknownKind(u8),
}

/// The error a header read reports for each issue.
pub open spec fn header_error_for(i: HeaderIssue, e: Error) -> bool {
    match i {
        HeaderIssue::TruncatedInput => e is UnexpectedEof,
        HeaderIssue::NameNotUtf8 => e is FromUtf8Error,
        HeaderIssue::WrongMagic(name) => e matches Error::InvalidHeader(found) && found@ == name,
        HeaderIssue::WrongVersion(v) => e matches Error::InvalidVersion { expected, found }
            && expected == 1 && found == v,
        HeaderIssue::UnknownKind(k) => e matches Error::InvalidCompression(found) && found == k,
    }
}

/// Parsing a header from the front of a stream: the header and the number
/// of bytes it occupied, or the exact issue.  The read itself rejects a
/// name other than the fixed magic and a version other than the supported
/// one, before it looks at the compression kind.  Mirrored by
/// [`FileHeader::from_reader`].
pub open spec fn spec_parse_header(s: Seq<u8>) -> Result<(HeaderView, int), HeaderIssue> {
    if s.len() < 2 {
        Err(HeaderIssue::TruncatedInput)
    } else {
        let n = wire::spec_u16_from_be(s[0], s[1]) as int;
        if s.len() < 2 + n {
            Err(HeaderIssue::TruncatedInput)
        } else {
            let name = s.subrange(2, 2 + n);
            if !vstd::utf8::valid_utf8(name) {
                Err(HeaderIssue::NameNotUtf8)
            } else if name != magic_bytes() {
                Err(HeaderIssue::WrongMagic(name))
            } else if s.len() < 3 + n {
                Err(HeaderIssue::TruncatedInput)
            } else if s[2 + n] != 1 {
                Err(HeaderIssue::WrongVersion(s[2 + n]))
            } else if s.len() < 4 + n {
                Err(HeaderIssue::TruncatedInput)
            } else {
                let version = s[2 + n];
                let kind = s[3 + n];
                if kind == 0 {
                    Ok(
                        (
                            HeaderView {
                                compression: Compression::Plain,
                                version,
                                header_name: name,
                            },
                            4 + n,
                        ),
                    )
                } else if kind == 1 || kind == 2 || kind == 3 {
                    if s.len() < 8 + n {
                        Err(HeaderIssue::TruncatedInput)
                    } else {
                        let lvl = wire::spec_u32_from_be(s[4 + n], s[5 + n], s[6 + n], s[7 + n]);
                        let compression = if kind == 1 {
                            Compression::Deflate(lvl)
                        } else if kind == 2 {
                            Compression::Gzip(lvl)
                        } else {
                            Compression::Zlib(lvl)
                        };
                        Ok((HeaderView { compression, version, header_name: name }, 8 + n))
                    }
                } else {
                    Err(HeaderIssue::UnknownKind(kind))
                }
            }
        }
    }
}

/// The fixed magic is ASCII, hence valid UTF-8.
pub proof fn lemma_magic_valid_utf8()
    ensures
        vstd::utf8::valid_utf8(magic_bytes()),
{
    let m = magic_bytes();
    let m1 = m.subrange(1, 4);
    let m2 = m.subrange(2, 4);
    let m3 = m.subrange(3, 4);
    let m4 = m.subrange(4, 4);
    assert(vstd::utf8::valid_first_scalar(m));
    assert(vstd::utf8::pop_first_scalar(m) =~= m1);
    assert(vstd::utf8::valid_first_scalar(m1));
    assert(vstd::utf8::pop_first_scalar(m1) =~= m2);
    assert(vstd::utf8::valid_first_scalar(m2));
    assert(vstd::utf8::pop_first_scalar(m2) =~= m3);
    assert(vstd::utf8::valid_first_scalar(m3));
    assert(vstd::utf8::pop_first_scalar(m3) =~= m4);
    assert(m4.len() == 0);
    assert(vstd::utf8::valid_utf8(m4));
    assert(vstd::utf8::valid_utf8(m3));
    assert(vstd::utf8::valid_utf8(m2));
    assert(vstd::utf8::valid_utf8(m1));
}

/// Parsing the bytes a header with the fixed magic and supported version
/// writes, in front of anything, yields that header back and consumes
/// exactly its bytes.
pub proof fn lemma_parse_header_round_trip(h: HeaderView, rest: Seq<u8>)
    requires
        h.header_name == magic_bytes(),
        h.version == 1,
    ensures
        spec_parse_header(spec_header_bytes(h) + rest) == Ok::<(HeaderView, int), HeaderIssue>(
            (h, spec_header_bytes(h).len() as int),
        ),
{
    lemma_magic_valid_utf8();
    let hb = spec_header_bytes(h);
    let s = hb + rest;
    let n = h.header_name.len() as int;
    wire::lemma_be16_round_trip(h.header_name.len() as u16);
    assert(s[0] == wire::spec_be16(h.header_name.len() as u16)[0]);
    assert(s[1] == wire::spec_be16(h.header_name.len() as u16)[1]);
    assert(wire::spec_u16_from_be(s[0], s[1]) as int == n);
    assert(s.subrange(2, 2 + n) =~= h.header_name);
    assert(s[2 + n] == h.version);
    match h.compression {
        Compression::Plain => {
            assert(s[3 + n] == 0);
            assert(hb.len() == 4 + n);
        },
        Compression::Deflate(v) => {
            assert(s[3 + n] == 1);
            wire::lemma_be32_round_trip(v);
            assert(s[4 + n] == wire::spec_be32(v)[0]);
            assert(s[5 + n] == wire::spec_be32(v)[1]);
            assert(s[6 + n] == wire::spec_be32(v)[2]);
            assert(s[7 + n] == wire::spec_be32(v)[3]);
            assert(hb.len() == 8 + n);
        },
        Compression::Gzip(v) => {
            assert(s[3 + n] == 2);
            wire::lemma_be32_round_trip(v);
            assert(s[4 + n] == wire::spec_be32(v)[0]);
            assert(s[5 + n] == wire::spec_be32(v)[1]);
            assert(s[6 + n] == wire::spec_be32(v)[2]);
            assert(s[7 + n] == wire::spec_be32(v)[3]);
            assert(hb.len() == 8 + n);
        },
        Compression::Zlib(v) => {
            assert(s[3 + n] == 3);
            wire::lemma_be32_round_trip(v);
            assert(s[4 + n] == wire::spec_be32(v)[0]);
            assert(s[5 + n] == wire::spec_be32(v)[1]);
            assert(s[6 + n] == wire::spec_be32(v)[2]);
            assert(s[7 + n] == wire::spec_be32(v)[3]);
            assert(hb.len() == 8 + n);
        },
    }
}

/// Whether a header name is exactly the fixed magic.
fn is_magic(name: &Vec<u8>) -> (r: bool)
    ensures
        r == (name@ == magic_bytes()),
{
    let r = name.len() == 4 && name[0] == 0x53 && name[1] == 0x42 && name[2] == 0x49 && name[3]
        == 0x46;
    proof {
        if r {
            assert(name@ =~= magic_bytes());
        }
    }
    r
}

impl Default for FileHeader {
    /// A header for the default compression setting.
    fn default() -> (r: Self)
        ensures
            r@.compression == Compression::Gzip(6u32),
            r@.version == 1,
            r@.header_name == magic_bytes(),
    {
        Self::new(Compression::default())
    }
}

impl FileHeader {
    /// A header for the given compression setting, with the fixed magic
    /// name and the supported version.
    pub fn new(compression: Compression) -> (r: Self)
        ensures
            r@.compression == compression,
            r@.version == 1,
            r@.header_name == magic_bytes(),
    {
        let header_name: Vec<u8> = vec![0x53, 0x42, 0x49, 0x46];
        assert(header_name@ =~= magic_bytes());
        FileHeader { compression, version: FORMAT_VERSION, header_name }
    }

    /// Appends the header's byte encoding to a sink.
    pub fn to_writer(&self, out: &mut Vec<u8>) -> (r: Result<(), Error>)
        requires
            self.header_name.len() <= u16::MAX,
        ensures
            r is Ok,
            final(out)@ == old(out)@ + spec_header_bytes(self@),
    {
        wire::write_u16_be(out, self.header_name.len() as u16);
        wire::append_bytes(out, &self.header_name);
        wire::write_u8(out, self.version);
        match self.compression {
            Compression::Plain => {
                wire::write_u8(out, 0);
            },
            Compression::Deflate(v) => {
                wire::write_u8(out, 1);
                wire::write_u32_be(out, v);
            },
            Compression::Gzip(v) => {
                wire::write_u8(out, 2);
                wire::write_u32_be(out, v);
            },
            Compression::Zlib(v) => {
                wire::write_u8(out, 3);
                wire::write_u32_be(out, v);
            },
        }
        assert(out@ =~= old(out)@ + spec_header_bytes(self@));
        Ok(())
    }

    /// The header's byte encoding as a fresh vector.
    pub fn to_bytes(&self) -> (r: Result<Vec<u8>, Error>)
        requires
            self.header_name.len() <= u16::MAX,
        ensures
            r matches Ok(b) && b@ == spec_header_bytes(self@),
    {
        let mut buffer: Vec<u8> = Vec::new();
        match self.to_writer(&mut buffer) {
            Ok(()) => Ok(buffer),
            Err(e) => Err(e),
        }
    }

    /// Parses a header from the front of `bytes`, returning it with the
    /// number of bytes it occupied.  The read itself rejects a name other
    /// than `"SBIF"` with a header-mismatch error carrying what it found,
    /// and a version other than the supported one with a version error,
    /// before it reads the compression kind.
    pub fn from_reader(bytes: &Vec<u8>) -> (r: Result<(FileHeader, usize), Error>)
        ensures
            r matches Ok(p) ==> {
                &&& spec_parse_header(bytes@) matches Ok(q) && p.0@ == q.0 && p.1 == q.1
                &&& p.1 <= bytes.len()
                &&& p.0.header_name.len() <= u16::MAX
            },
            r matches Err(e) ==> spec_parse_header(bytes@) matches Err(i) && header_error_for(
                i,
                e,
            ),
    {
        let avail = bytes.len();
        if avail < 2 {
            return Err(Error::UnexpectedEof);
        }
        let name_len = wire::read_u16_be(bytes, 0) as usize;
        if avail - 2 < name_len {
            return Err(Error::UnexpectedEof);
        }
        let name = wire::copy_range(bytes, 2, 2 + name_len);
        if !crate::text::utf8_check(bytes, 2, 2 + name_len) {
            return Err(Error::FromUtf8Error);
        }
        if !is_magic(&name) {
            return Err(Error::InvalidHeader(name));
        }
        if avail < name_len + 3 {
            return Err(Error::UnexpectedEof);
        }
        let version = bytes[2 + name_len];
        if version != FORMAT_VERSION {
            return Err(Error::InvalidVersion { expected: 1, found: version });
        }
        if avail < name_len + 4 {
            return Err(Error::UnexpectedEof);
        }
        let kind = bytes[3 + name_len];
        if kind == 0 {
            Ok((FileHeader { compression: Compression::Plain, version, header_name: name }, 4
                + name_len))
        } else if kind <= 3 {
            if avail < name_len + 8 {
                return Err(Error::UnexpectedEof);
            }
            let lvl = wire::read_u32_be(bytes, 4 + name_len);
            let compression = if kind == 1 {
                Compression::Deflate(lvl)
            } else if kind == 2 {
                Compression::Gzip(lvl)
            } else {
                Compression::Zlib(lvl)
            };
            Ok((FileHeader { compression, version, header_name: name }, 8 + name_len))
        } else {
            Err(Error::InvalidCompression(kind))
        }
    }
}

} // verus!
