//! BA2 archive format support.
//!
//! The fixed 24-byte header holds, in order: a 4-byte magic, a `u32`
//! version, a 4-character archive-type tag, a `u32` file count and a `u64`
//! names-table offset; the numeric fields are little-endian.

pub mod extractor;

use vstd::prelude::*;

use crate::error::{BA2Error, Error};
use crate::text::{
    ascii_chars_of, is_ascii_bytes, lossy_of, str_eq, utf8_lossy,
};

verus! {

/// The archive header.
#[derive(Debug, Clone, PartialEq, Eq)]
pub struct BA2Header {
    /// Magic number, expected to spell the canonical magic.
    pub magic: [u8; 4],
    /// Format version.
    pub version: u32,
    /// Archive type tag, trimmed of trailing NUL bytes.
    pub archive_type: String,
    /// Number of files in the archive.
    pub file_count: u32,
    /// Offset of the file names table.
    pub names_offset: u64,
}

/// The canonical magic bytes, spelling `BTDX`.
pub open spec fn magic_bytes() -> Seq<u8> {
    seq![66u8, 84u8, 68u8, 88u8]
}

/// The little-endian value of the four bytes at offset `i`.
pub open spec fn le_u32_at(b: Seq<u8>, i: int) -> nat {
    (b[i] + 0x100 * b[i + 1] + 0x10000 * b[i + 2] + 0x1000000 * b[i + 3]) as nat
}

/// The little-endian value of the eight bytes at offset `i`.
pub open spec fn le_u64_at(b: Seq<u8>, i: int) -> nat {
    (le_u32_at(b, i) + 0x100000000 * le_u32_at(b, i + 4)) as nat
}

/// The character sequence with trailing NUL characters removed.
pub open spec fn trim_trailing_nul(s: Seq<char>) -> Seq<char>
    decreases s.len(),
{
    if s.len() > 0 && s.last() == '\0' {
        trim_trailing_nul(s.drop_last())
    } else {
        s
    }
}

/// The archive-type tag decoded from its four raw bytes: UTF-8,
/// best-effort, with trailing NULs removed.
pub open spec fn decoded_tag(b: Seq<u8>) -> Seq<char> {
    if is_ascii_bytes(b) {
        trim_trailing_nul(ascii_chars_of(b))
    } else {
        trim_trailing_nul(lossy_of(b))
    }
}

/// A buffer is too short to hold a header.
pub open spec fn header_too_short(b: Seq<u8>) -> bool {
    b.len() < 24
}

/// A buffer holds a header that passes validation: it is long enough and
/// begins with the canonical magic. The archive-type tag is not checked;
/// unknown tags are accepted for forward compatibility.
pub open spec fn header_parse_ok(b: Seq<u8>) -> bool {
    b.len() >= 24 && b.subrange(0, 4) == magic_bytes()
}

impl BA2Header {
    /// Expected magic number of an archive header.
    pub const MAGIC: [u8; 4] = [66, 84, 68, 88];

    /// Header size in bytes.
    pub const HEADER_SIZE: usize = 24;

    /// Parse an archive header from the first bytes of a file.
    ///
    /// Exactly 24 bytes are consumed; fewer available bytes give a
    /// corruption error, and a wrong magic a validation error. `path` only
    /// labels the errors.
    pub fn parse_from_reader(data: &[u8], path: &str) -> (r: Result<BA2Header, Error>)
        ensures
            r is Ok <==> header_parse_ok(data@),
            header_too_short(data@) ==> (r matches Err(Error::BA2(BA2Error::Corrupted {
                path: p,
                reason,
            })) && p@ == path@ && reason@
                == "Failed to read header: failed to fill whole buffer"@),
            !header_too_short(data@) && !header_parse_ok(data@) ==> (r matches Err(
                Error::BA2(BA2Error::InvalidMagic { path: p }),
            ) && p@ == path@),
            r matches Ok(h) ==> {
                &&& h.magic@ == data@.subrange(0, 4)
                &&& h.version == le_u32_at(data@, 4)
                &&& h.archive_type@ == decoded_tag(data@.subrange(8, 12))
                &&& h.file_count == le_u32_at(data@, 12)
                &&& h.names_offset == le_u64_at(data@, 16)
            },
    {
        if data.len() < 24 {
            return Err(
                Error::BA2(
                    BA2Error::Corrupted {
                        path: path.to_owned(),
                        reason: String::from_str(
                            "Failed to read header: failed to fill whole buffer",
                        ),
                    },
                ),
            );
        }
        let magic: [u8; 4] = [data[0], data[1], data[2], data[3]];
        if !(data[0] == 66 && data[1] == 84 && data[2] == 68 && data[3] == 88) {
            proof {
                assert(data@.subrange(0, 4)[0] == data@[0]);
                assert(data@.subrange(0, 4)[1] == data@[1]);
                assert(data@.subrange(0, 4)[2] == data@[2]);
                assert(data@.subrange(0, 4)[3] == data@[3]);
            }
            return Err(Error::BA2(BA2Error::InvalidMagic { path: path.to_owned() }));
        }
        proof {
            assert(data@.subrange(0, 4) =~= magic_bytes());
        }
        let version: u32 = data[4] as u32 + 0x100 * data[5] as u32 + 0x10000 * data[6] as u32
            + 0x1000000 * data[7] as u32;
        let mut tag_bytes: Vec<u8> = Vec::new();
        tag_bytes.push(data[8]);
        tag_bytes.push(data[9]);
        tag_bytes.push(data[10]);
        tag_bytes.push(data[11]);
        proof {
            assert(tag_bytes@ =~= data@.subrange(8, 12));
        }
        let tag = utf8_lossy(tag_bytes.as_slice());
        let archive_type = trim_trailing_nul_str(tag.as_str());
        let file_count: u32 = data[12] as u32 + 0x100 * data[13] as u32 + 0x10000 * data[14] as u32
            + 0x1000000 * data[15] as u32;
        let low: u32 = data[16] as u32 + 0x100 * data[17] as u32 + 0x10000 * data[18] as u32
            + 0x1000000 * data[19] as u32;
        let high: u32 = data[20] as u32 + 0x100 * data[21] as u32 + 0x10000 * data[22] as u32
            + 0x1000000 * data[23] as u32;
        let names_offset: u64 = low as u64 + 0x100000000u64 * high as u64;
        proof {
            assert(magic@ =~= data@.subrange(0, 4));
        }
        Ok(BA2Header { magic, version, archive_type, file_count, names_offset })
    }

    /// Validate the header: the magic must be the canonical one. Unknown
    /// archive-type tags are accepted, by design.
    pub fn validate(&self, path: &str) -> (r: Result<(), Error>)
        ensures
            r is Ok <==> self.magic@ == magic_bytes(),
            r matches Err(e) ==> (e matches Error::BA2(BA2Error::InvalidMagic { path: p }) && p@
                == path@),
    {
        if !(self.magic[0] == 66 && self.magic[1] == 84 && self.magic[2] == 68 && self.magic[3]
            == 88) {
            proof {
                assert(self.magic@.len() == 4);
                assert(self.magic@ != magic_bytes());
            }
            return Err(Error::BA2(BA2Error::InvalidMagic { path: path.to_owned() }));
        }
        proof {
            assert(self.magic@ =~= magic_bytes());
        }
        Ok(())
    }

    /// Check if this is a general archive.
    pub fn is_general(&self) -> (r: bool)
        ensures
            r == (self.archive_type@ == "GNRL"@),
    {
        str_eq(self.archive_type.as_str(), "GNRL")
    }

    /// Check if this is a texture archive.
    pub fn is_texture(&self) -> (r: bool)
        ensures
            r == (self.archive_type@ == "DX10"@),
    {
        str_eq(self.archive_type.as_str(), "DX10")
    }
}

/// Remove the trailing NUL characters of a string.
fn trim_trailing_nul_str(s: &str) -> (r: String)
    ensures
        r@ == trim_trailing_nul(s@),
{
    let len = s.unicode_len();
    let mut end = len;
    proof {
        assert(s@.take(len as int) =~= s@);
    }
    while end > 0 && s.get_char(end - 1) == '\0'
        invariant
            end <= len,
            len == s@.len(),
            trim_trailing_nul(s@) == trim_trailing_nul(s@.take(end as int)),
        decreases end,
    {
        proof {
            assert(s@.take(end as int).last() == s@[end - 1]);
            assert(s@.take(end as int).drop_last() =~= s@.take(end - 1));
        }
        end = end - 1;
    }
    proof {
        if end > 0 {
            assert(s@.take(end as int).last() == s@[end - 1]);
        }
        assert(trim_trailing_nul(s@.take(end as int)) == s@.take(end as int));
    }
    let out = s.substring_char(0, end);
    proof {
        assert(out@ =~= s@.take(end as int));
    }
    out.to_owned()
}

/// The number of files a well-formed archive declares, read from the
/// header alone.
pub fn num_files_in_ba2(data: &[u8], path: &str) -> (r: Result<u32, Error>)
    ensures
        r is Ok <==> header_parse_ok(data@),
        r matches Ok(n) ==> n == le_u32_at(data@, 12),
{
    match BA2Header::parse_from_reader(data, path) {
        Ok(header) => Ok(header.file_count),
        Err(e) => Err(e),
    }
}

/// Quick validity check: any parse failure means "not valid"; the error
/// itself is never propagated.
pub fn is_valid_ba2(data: &[u8]) -> (r: bool)
    ensures
        r == header_parse_ok(data@),
{
    match BA2Header::parse_from_reader(data, "") {
        Ok(_) => true,
        Err(_) => false,
    }
}

/// The bytes of the tag `GNRL` decode to the string `GNRL`: a header
/// carrying them reports a general archive.
pub proof fn lemma_tag_general()
    ensures
        decoded_tag(seq![71u8, 78u8, 82u8, 76u8]) == "GNRL"@,
{
    reveal_strlit("GNRL");
    let b = seq![71u8, 78u8, 82u8, 76u8];
    assert(is_ascii_bytes(b));
    assert(ascii_chars_of(b) =~= "GNRL"@);
    assert(trim_trailing_nul(ascii_chars_of(b)) == ascii_chars_of(b));
}

/// The bytes of the tag `DX10` decode to the string `DX10`: a header
/// carrying them reports a texture archive.
pub proof fn lemma_tag_texture()
    ensures
        decoded_tag(seq![68u8, 88u8, 49u8, 48u8]) == "DX10"@,
{
    reveal_strlit("DX10");
    let b = seq![68u8, 88u8, 49u8, 48u8];
    assert(is_ascii_bytes(b));
    assert(ascii_chars_of(b) =~= "DX10"@);
    assert(trim_trailing_nul(ascii_chars_of(b)) == ascii_chars_of(b));
}

/// Parsing accepts or rejects a buffer regardless of its archive-type
/// tag: validity depends only on the length and the 4-byte magic.
pub proof fn lemma_tag_never_rejected(b1: Seq<u8>, b2: Seq<u8>)
    requires
        b1.len() == b2.len(),
        forall|i: int| 0 <= i < b1.len() && !(8 <= i < 12) ==> b1[i] == b2[i],
    ensures
        header_parse_ok(b1) == header_parse_ok(b2),
{
    if b1.len() >= 24 {
        assert(b1.subrange(0, 4) =~= b2.subrange(0, 4));
    }
}

} // verus!
