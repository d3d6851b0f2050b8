//! Validating loader: turns a serialized buffer back into a [`Pack`].
//!
//! The loader checks the header (length, magic, version) and then parses
//! the length-prefixed records. Every length field is bounds-checked
//! against the buffer before it is used, so a truncated or corrupted
//! buffer yields a recoverable error, never an out-of-bounds access.

use vstd::prelude::*;
use vstd::bytes::{
    spec_u16_from_le_bytes, spec_u32_from_le_bytes, spec_u64_from_le_bytes, u16_from_le_bytes,
    u32_from_le_bytes, u64_from_le_bytes,
};
use vstd::slice::{slice_subrange, slice_to_vec};
use vstd::utf8::{decode_utf8, valid_utf8};
use crate::cache_control::CacheControl;
use crate::file::{File, FileView};
use crate::pack::{entries_seq_view, unique_paths, Pack};
use crate::pack_path::PackPath;
use crate::serialize::{
    entries_fit, entry_fits, spec_cache_byte, spec_serialize_bytes32, spec_serialize_entries,
    spec_serialize_entry, spec_serialize_opt_bytes32, spec_serialize_pack, spec_serialize_string16,
    spec_serialize_string8,
};
use crate::text::{str_eq_chars, try_str_from_utf8};
use crate::{PACK_FILE_MAGIC, PACK_FILE_VERSION};

verus! {

broadcast use vstd::slice::group_slice_axioms;

/// Error of loading a serialized pack. All variants are fatal to the load
/// attempt: a partially loaded pack is never returned.
#[derive(Clone, Copy, PartialEq, Eq, Structural, Debug)]
pub enum LoadError {
    /// The buffer does not start at the alignment its embedding promised.
    /// The record parser itself is position-independent and never returns
    /// this; a caller that maps a buffer with an alignment requirement
    /// checks the address and reports this error itself.
    Misaligned,
    /// The buffer is shorter than the fixed 16-byte header.
    Truncated,
    /// The first eight bytes are not the pack magic.
    BadMagic,
    /// The format version does not match exactly.
    VersionMismatch,
    /// A record is malformed: a length field points past the end of the
    /// buffer, a string is not UTF-8, a stored variant does not improve on
    /// the raw content, a cache policy byte is unknown, or two records
    /// share one path.
    Corrupt,
}

/// A field prefixed by a `u8` byte length: its bytes and the position
/// after it.
pub open spec fn spec_field_u8(b: Seq<u8>, pos: int) -> Option<(Seq<u8>, int)> {
    if pos + 1 > b.len() {
        None
    } else {
        let n = b[pos] as int;
        if pos + 1 + n > b.len() {
            None
        } else {
            Some((b.subrange(pos + 1, pos + 1 + n), pos + 1 + n))
        }
    }
}

/// A field prefixed by a little-endian `u16` byte length.
pub open spec fn spec_field_u16(b: Seq<u8>, pos: int) -> Option<(Seq<u8>, int)> {
    if pos + 2 > b.len() {
        None
    } else {
        let n = spec_u16_from_le_bytes(b.subrange(pos, pos + 2)) as int;
        if pos + 2 + n > b.len() {
            None
        } else {
            Some((b.subrange(pos + 2, pos + 2 + n), pos + 2 + n))
        }
    }
}

/// A field prefixed by a little-endian `u32` byte length.
pub open spec fn spec_field_u32(b: Seq<u8>, pos: int) -> Option<(Seq<u8>, int)> {
    if pos + 4 > b.len() {
        None
    } else {
        let n = spec_u32_from_le_bytes(b.subrange(pos, pos + 4)) as int;
        if pos + 4 + n > b.len() {
            None
        } else {
            Some((b.subrange(pos + 4, pos + 4 + n), pos + 4 + n))
        }
    }
}

/// An optional field: a presence byte, then a `u32`-prefixed field when
/// present.
pub open spec fn spec_field_opt_u32(b: Seq<u8>, pos: int) -> Option<(Option<Seq<u8>>, int)> {
    if pos + 1 > b.len() {
        None
    } else if b[pos] == 0 {
        Some((None, pos + 1))
    } else if b[pos] != 1 {
        None
    } else {
        match spec_field_u32(b, pos + 1) {
            None => None,
            Some((d, next)) => Some((Some(d), next)),
        }
    }
}

/// One file record starting at `pos`: the entry it encodes and the
/// position after it, or `None` when the record is malformed.
pub open spec fn spec_parse_entry(b: Seq<u8>, pos: int) -> Option<((Seq<char>, FileView), int)> {
    match spec_field_u16(b, pos) {
        None => None,
        Some((path_bytes, p1)) => if !valid_utf8(path_bytes) {
            None
        } else {
            match spec_field_u8(b, p1) {
                None => None,
                Some((content_type_bytes, p2)) => if !valid_utf8(content_type_bytes) {
                    None
                } else {
                    match spec_field_u8(b, p2) {
                        None => None,
                        Some((etag_bytes, p3)) => if !valid_utf8(etag_bytes) {
                            None
                        } else if p3 + 1 > b.len() {
                            None
                        } else if b[p3] != 0 && b[p3] != 1 {
                            None
                        } else {
                            let cache_control = if b[p3] == 0 {
                                CacheControl::NoCache
                            } else {
                                CacheControl::MaxCache
                            };
                            match spec_field_u32(b, p3 + 1) {
                                None => None,
                                Some((content, p4)) => match spec_field_opt_u32(b, p4) {
                                    None => None,
                                    Some((content_gzip, p5)) => match spec_field_opt_u32(b, p5) {
                                        None => None,
                                        Some((content_brotli, p6)) => {
                                            let f = FileView {
                                                content,
                                                content_gzip,
                                                content_brotli,
                                                content_type: decode_utf8(content_type_bytes),
                                                etag: decode_utf8(etag_bytes),
                                                cache_control,
                                            };
                                            if !f.wf() {
                                                None
                                            } else {
                                                Some(((decode_utf8(path_bytes), f), p6))
                                            }
                                        },
                                    },
                                },
                            }
                        },
                    }
                },
            }
        },
    }
}

/// All records from `pos` to the end of the buffer, in order.
pub open spec fn spec_parse_entries(b: Seq<u8>, pos: int) -> Option<Seq<(Seq<char>, FileView)>>
    decreases b.len() - pos,
{
    if pos < 0 || pos > b.len() {
        None
    } else if pos == b.len() {
        Some(Seq::empty())
    } else {
        match spec_parse_entry(b, pos) {
            None => None,
            Some((e, next)) => if !(pos < next <= b.len()) {
                None
            } else {
                match spec_parse_entries(b, next) {
                    None => None,
                    Some(rest) => Some(seq![e] + rest),
                }
            },
        }
    }
}

/// What loading a buffer yields: the parsed entries, or the error the
/// loader reports.
pub open spec fn spec_load(b: Seq<u8>) -> Result<Seq<(Seq<char>, FileView)>, LoadError> {
    if b.len() < 16 {
        Err(LoadError::Truncated)
    } else if b.subrange(0, 8) != vstd::bytes::spec_u64_to_le_bytes(PACK_FILE_MAGIC) {
        Err(LoadError::BadMagic)
    } else if b.subrange(8, 16) != vstd::bytes::spec_u64_to_le_bytes(PACK_FILE_VERSION) {
        Err(LoadError::VersionMismatch)
    } else {
        match spec_parse_entries(b, 16) {
            None => Err(LoadError::Corrupt),
            Some(entries) => if !unique_paths(entries) {
                Err(LoadError::Corrupt)
            } else {
                Ok(entries)
            },
        }
    }
}

/// Reads a field prefixed by a `u8` length.
fn read_u8(b: &[u8], pos: usize) -> (r: Option<(&[u8], usize)>)
    requires
        pos <= b@.len(),
    ensures
        match r {
            Some((data, next)) => spec_field_u8(b@, pos as int) == Some((data@, next as int))
                && pos < next <= b@.len(),
            None => spec_field_u8(b@, pos as int) is None,
        },
{
    if b.len() - pos < 1 {
        return None;
    }
    let n = b[pos] as usize;
    if b.len() - (pos + 1) < n {
        return None;
    }
    let data = slice_subrange(b, pos + 1, pos + 1 + n);
    Some((data, pos + 1 + n))
}

/// Reads a field prefixed by a little-endian `u16` length.
fn read_u16(b: &[u8], pos: usize) -> (r: Option<(&[u8], usize)>)
    requires
        pos <= b@.len(),
    ensures
        match r {
            Some((data, next)) => spec_field_u16(b@, pos as int) == Some((data@, next as int))
                && pos < next <= b@.len(),
            None => spec_field_u16(b@, pos as int) is None,
        },
{
    if b.len() - pos < 2 {
        return None;
    }
    let n = u16_from_le_bytes(slice_subrange(b, pos, pos + 2)) as usize;
    if b.len() - (pos + 2) < n {
        return None;
    }
    let data = slice_subrange(b, pos + 2, pos + 2 + n);
    Some((data, pos + 2 + n))
}

/// Reads a field prefixed by a little-endian `u32` length.
fn read_u32(b: &[u8], pos: usize) -> (r: Option<(&[u8], usize)>)
    requires
        pos <= b@.len(),
    ensures
        match r {
            Some((data, next)) => spec_field_u32(b@, pos as int) == Some((data@, next as int))
                && pos < next <= b@.len(),
            None => spec_field_u32(b@, pos as int) is None,
        },
{
    if b.len() - pos < 4 {
        return None;
    }
    let n32 = u32_from_le_bytes(slice_subrange(b, pos, pos + 4));
    let n = n32 as usize;
    if b.len() - (pos + 4) < n {
        return None;
    }
    let data = slice_subrange(b, pos + 4, pos + 4 + n);
    Some((data, pos + 4 + n))
}

/// Reads an optional `u32`-prefixed field.
fn read_opt_u32(b: &[u8], pos: usize) -> (r: Option<(Option<&[u8]>, usize)>)
    requires
        pos <= b@.len(),
    ensures
        match r {
            Some((o, next)) => spec_field_opt_u32(b@, pos as int) == Some(
                (
                    match o {
                        Some(d) => Some(d@),
                        None => None,
                    },
                    next as int,
                ),
            ) && pos < next <= b@.len(),
            None => spec_field_opt_u32(b@, pos as int) is None,
        },
{
    if b.len() - pos < 1 {
        return None;
    }
    let flag = b[pos];
    if flag == 0 {
        return Some((None, pos + 1));
    }
    if flag != 1 {
        return None;
    }
    match read_u32(b, pos + 1) {
        None => None,
        Some((data, next)) => Some((Some(data), next)),
    }
}

/// Parses one record into an owned entry.
fn parse_entry(b: &[u8], pos: usize) -> (r: Option<((PackPath, File), usize)>)
    requires
        pos <= b@.len(),
    ensures
        match r {
            Some((entry, next)) => spec_parse_entry(b@, pos as int) == Some(
                ((entry.0@, entry.1@), next as int),
            ) && pos < next <= b@.len(),
            None => spec_parse_entry(b@, pos as int) is None,
        },
{
    let (path_bytes, p1) = match read_u16(b, pos) {
        Some(x) => x,
        None => {
            return None;
        },
    };
    let path_str = match try_str_from_utf8(path_bytes) {
        Some(s) => s,
        None => {
            return None;
        },
    };
    let (content_type_bytes, p2) = match read_u8(b, p1) {
        Some(x) => x,
        None => {
            return None;
        },
    };
    let content_type_str = match try_str_from_utf8(content_type_bytes) {
        Some(s) => s,
        None => {
            return None;
        },
    };
    let (etag_bytes, p3) = match read_u8(b, p2) {
        Some(x) => x,
        None => {
            return None;
        },
    };
    let etag_str = match try_str_from_utf8(etag_bytes) {
        Some(s) => s,
        None => {
            return None;
        },
    };
    if p3 == b.len() {
        return None;
    }
    let cache_byte = b[p3];
    if cache_byte != 0 && cache_byte != 1 {
        return None;
    }
    let cache_control = if cache_byte == 0 {
        CacheControl::NoCache
    } else {
        CacheControl::MaxCache
    };
    let (content_slice, p4) = match read_u32(b, p3 + 1) {
        Some(x) => x,
        None => {
            return None;
        },
    };
    let (gzip_slice, p5) = match read_opt_u32(b, p4) {
        Some(x) => x,
        None => {
            return None;
        },
    };
    let (brotli_slice, p6) = match read_opt_u32(b, p5) {
        Some(x) => x,
        None => {
            return None;
        },
    };
    match gzip_slice {
        Some(g) => if g.len() >= content_slice.len() {
            return None;
        },
        None => {},
    }
    match brotli_slice {
        Some(v) => if v.len() >= content_slice.len() {
            return None;
        },
        None => {},
    }
    let content_gzip = match gzip_slice {
        Some(g) => Some(slice_to_vec(g)),
        None => None,
    };
    let content_brotli = match brotli_slice {
        Some(v) => Some(slice_to_vec(v)),
        None => None,
    };
    let file = File::new(
        slice_to_vec(content_slice),
        content_gzip,
        content_brotli,
        content_type_str.to_owned(),
        etag_str.to_owned(),
        cache_control,
    );
    let path = PackPath::from_string(path_str.to_owned());
    Some(((path, file), p6))
}

/// Checks that no two entries share a path.
fn check_unique(entries: &Vec<(PackPath, File)>) -> (r: bool)
    ensures
        r == unique_paths(entries_seq_view(entries@)),
{
    let ghost s = entries_seq_view(entries@);
    let mut i: usize = 0;
    while i < entries.len()
        invariant
            i <= entries@.len(),
            s == entries_seq_view(entries@),
            s.len() == entries@.len(),
            forall|a: int, c: int| 0 <= a < c < s.len() && a < i ==> s[a].0 != s[c].0,
        decreases entries@.len() - i,
    {
        let mut j: usize = i + 1;
        while j < entries.len()
            invariant
                i < entries@.len(),
                i < j,
                j <= entries@.len(),
                s == entries_seq_view(entries@),
                s.len() == entries@.len(),
                forall|c: int| i < c < j ==> s[i as int].0 != s[c].0,
            decreases entries@.len() - j,
        {
            if str_eq_chars(entries[i].0.as_str(), entries[j].0.as_str()) {
                proof {
                    assert(s[i as int].0 == s[j as int].0);
                }
                return false;
            }
            j = j + 1;
        }
        i = i + 1;
    }
    true
}

/// Loads a pack from bytes produced by
/// [`crate::serialize::store_memory`].
///
/// The header is validated first: a buffer shorter than the 16-byte
/// header is [`LoadError::Truncated`], a wrong magic is
/// [`LoadError::BadMagic`], a wrong version is
/// [`LoadError::VersionMismatch`] (exact match only, no compatibility
/// logic). The records are then parsed with every length checked against
/// the buffer's end; any malformation is [`LoadError::Corrupt`].
///
/// The record stream is position-independent, so this function imposes no
/// alignment demand of its own; an embedding that maps the buffer under an
/// alignment requirement checks the address before calling and reports
/// [`LoadError::Misaligned`] itself.
pub fn load(serialized: &[u8]) -> (r: Result<Pack, LoadError>)
    ensures
        match r {
            Ok(p) => spec_load(serialized@) == Ok::<Seq<(Seq<char>, FileView)>, LoadError>(
                p.entries_view(),
            ),
            Err(e) => spec_load(serialized@) == Err::<Seq<(Seq<char>, FileView)>, LoadError>(e),
        },
{
    proof {
        vstd::bytes::lemma_auto_spec_u64_to_from_le_bytes();
    }
    if serialized.len() < 16 {
        return Err(LoadError::Truncated);
    }
    let magic = u64_from_le_bytes(slice_subrange(serialized, 0, 8));
    if magic != PACK_FILE_MAGIC {
        return Err(LoadError::BadMagic);
    }
    let version = u64_from_le_bytes(slice_subrange(serialized, 8, 16));
    if version != PACK_FILE_VERSION {
        return Err(LoadError::VersionMismatch);
    }
    let mut entries: Vec<(PackPath, File)> = Vec::new();
    let mut pos: usize = 16;
    proof {
        assert(entries_seq_view(entries@) =~= Seq::<(Seq<char>, FileView)>::empty());
    }
    while pos < serialized.len()
        invariant
            16 <= pos <= serialized@.len(),
            serialized@.len() >= 16,
            serialized@.subrange(0, 8) == vstd::bytes::spec_u64_to_le_bytes(PACK_FILE_MAGIC),
            serialized@.subrange(8, 16) == vstd::bytes::spec_u64_to_le_bytes(PACK_FILE_VERSION),
            match spec_parse_entries(serialized@, pos as int) {
                Some(rest) => spec_parse_entries(serialized@, 16) == Some(
                    entries_seq_view(entries@) + rest,
                ),
                None => spec_parse_entries(serialized@, 16) is None,
            },
        decreases serialized@.len() - pos,
    {
        let ghost done = entries_seq_view(entries@);
        match parse_entry(serialized, pos) {
            None => {
                return Err(LoadError::Corrupt);
            },
            Some((entry, next)) => {
                let ghost e = (entry.0@, entry.1@);
                entries.push(entry);
                proof {
                    assert(entries_seq_view(entries@) =~= done.push(e));
                    match spec_parse_entries(serialized@, next as int) {
                        Some(rest) => {
                            assert(spec_parse_entries(serialized@, pos as int) == Some(
                                seq![e] + rest,
                            ));
                            assert(done + (seq![e] + rest) =~= done.push(e) + rest);
                        },
                        None => {
                            assert(spec_parse_entries(serialized@, pos as int) is None);
                        },
                    }
                }
                pos = next;
            },
        }
    }
    proof {
        assert(spec_parse_entries(serialized@, pos as int) == Some(
            Seq::<(Seq<char>, FileView)>::empty(),
        ));
        assert(entries_seq_view(entries@) + Seq::<(Seq<char>, FileView)>::empty()
            =~= entries_seq_view(entries@));
    }
    if !check_unique(&entries) {
        return Err(LoadError::Corrupt);
    }
    let pack = Pack::from_entries(entries);
    Ok(pack)
}

proof fn lemma_field_u8_of(b: Seq<u8>, pos: int, data: Seq<u8>)
    requires
        0 <= pos,
        data.len() <= 0xFF,
        pos + 1 + data.len() <= b.len(),
        b[pos] == data.len() as u8,
        b.subrange(pos + 1, pos + 1 + data.len()) == data,
    ensures
        spec_field_u8(b, pos) == Some((data, pos + 1 + data.len())),
{
}

proof fn lemma_field_u16_of(b: Seq<u8>, pos: int, data: Seq<u8>)
    requires
        0 <= pos,
        data.len() <= 0xFFFF,
        pos + 2 + data.len() <= b.len(),
        b.subrange(pos, pos + 2) == vstd::bytes::spec_u16_to_le_bytes(data.len() as u16),
        b.subrange(pos + 2, pos + 2 + data.len()) == data,
    ensures
        spec_field_u16(b, pos) == Some((data, pos + 2 + data.len())),
{
    vstd::bytes::lemma_auto_spec_u16_to_from_le_bytes();
    assert(vstd::bytes::spec_u16_to_le_bytes(data.len() as u16).len() == 2);
    assert(vstd::bytes::spec_u16_from_le_bytes(b.subrange(pos, pos + 2)) == data.len() as u16);
}

proof fn lemma_field_u32_of(b: Seq<u8>, pos: int, data: Seq<u8>)
    requires
        0 <= pos,
        data.len() <= 0xFFFF_FFFF,
        pos + 4 + data.len() <= b.len(),
        b.subrange(pos, pos + 4) == vstd::bytes::spec_u32_to_le_bytes(data.len() as u32),
        b.subrange(pos + 4, pos + 4 + data.len()) == data,
    ensures
        spec_field_u32(b, pos) == Some((data, pos + 4 + data.len())),
{
    vstd::bytes::lemma_auto_spec_u32_to_from_le_bytes();
    assert(vstd::bytes::spec_u32_to_le_bytes(data.len() as u32).len() == 4);
    assert(vstd::bytes::spec_u32_from_le_bytes(b.subrange(pos, pos + 4)) == data.len() as u32);
}

/// Splits knowledge of a two-part subrange of `b` into its parts.
proof fn lemma_concat_subrange(b: Seq<u8>, pos: int, x: Seq<u8>, y: Seq<u8>)
    requires
        0 <= pos,
        pos + x.len() + y.len() <= b.len(),
        b.subrange(pos, pos + x.len() + y.len()) == x + y,
    ensures
        b.subrange(pos, pos + x.len()) == x,
        b.subrange(pos + x.len(), pos + x.len() + y.len()) == y,
{
    let whole = b.subrange(pos, pos + x.len() + y.len());
    assert forall|i: int| 0 <= i < x.len() implies b.subrange(pos, pos + x.len())[i] == x[i] by {
        assert(whole[i] == (x + y)[i]);
    }
    assert(b.subrange(pos, pos + x.len()) =~= x);
    assert forall|i: int| 0 <= i < y.len() implies b.subrange(
        pos + x.len(),
        pos + x.len() + y.len(),
    )[i] == y[i] by {
        assert(whole[x.len() + i] == (x + y)[x.len() + i]);
    }
    assert(b.subrange(pos + x.len(), pos + x.len() + y.len()) =~= y);
}

/// A record written by the serializer parses back to the entry it came
/// from, ending exactly after the record.
#[verifier::rlimit(100)]
proof fn lemma_parse_serialized_entry(b: Seq<u8>, pos: int, e: (Seq<char>, FileView))
    requires
        0 <= pos,
        pos + spec_serialize_entry(e).len() <= b.len(),
        b.subrange(pos, pos + spec_serialize_entry(e).len()) == spec_serialize_entry(e),
        entry_fits(e),
        e.1.wf(),
    ensures
        spec_parse_entry(b, pos) == Some((e, pos + spec_serialize_entry(e).len())),
{
    broadcast use vstd::utf8::encode_utf8_valid_utf8;
    broadcast use vstd::utf8::encode_utf8_decode_utf8;

    vstd::bytes::lemma_auto_spec_u16_to_from_le_bytes();
    vstd::bytes::lemma_auto_spec_u32_to_from_le_bytes();
    let se = spec_serialize_entry(e);
    let path_bytes = vstd::utf8::encode_utf8(e.0);
    let content_type_bytes = vstd::utf8::encode_utf8(e.1.content_type);
    let etag_bytes = vstd::utf8::encode_utf8(e.1.etag);
    let sa = spec_serialize_string16(e.0);
    let sb = spec_serialize_string8(e.1.content_type);
    let sc = spec_serialize_string8(e.1.etag);
    let sd = seq![spec_cache_byte(e.1.cache_control)];
    let sle = spec_serialize_bytes32(e.1.content);
    let sf = spec_serialize_opt_bytes32(e.1.content_gzip);
    let sg = spec_serialize_opt_bytes32(e.1.content_brotli);
    assert(vstd::bytes::spec_u16_to_le_bytes(path_bytes.len() as u16).len() == 2);
    assert(vstd::bytes::spec_u32_to_le_bytes(e.1.content.len() as u32).len() == 4);
    assert(sa.len() == 2 + path_bytes.len());
    assert(sb.len() == 1 + content_type_bytes.len());
    assert(sc.len() == 1 + etag_bytes.len());
    assert(sle.len() == 4 + e.1.content.len());
    assert(se == sa + sb + sc + sd + sle + sf + sg);
    let p1 = pos + sa.len();
    let p2 = p1 + sb.len();
    let p3 = p2 + sc.len();
    let p4 = p3 + 1;
    let p5 = p4 + sle.len();
    let p6 = p5 + sf.len();
    let p7 = p6 + sg.len();
    // peel the record's segments off the right of the record
    lemma_concat_subrange(b, pos, sa + sb + sc + sd + sle + sf, sg);
    lemma_concat_subrange(b, pos, sa + sb + sc + sd + sle, sf);
    lemma_concat_subrange(b, pos, sa + sb + sc + sd, sle);
    lemma_concat_subrange(b, pos, sa + sb + sc, sd);
    lemma_concat_subrange(b, pos, sa + sb, sc);
    lemma_concat_subrange(b, pos, sa, sb);
    // path
    lemma_concat_subrange(b, pos, vstd::bytes::spec_u16_to_le_bytes(path_bytes.len() as u16),
        path_bytes);
    lemma_field_u16_of(b, pos, path_bytes);
    assert(spec_field_u16(b, pos) == Some((path_bytes, p1)));
    // content type
    assert(b.subrange(p1, p2) == sb);
    assert(b[p1] == content_type_bytes.len() as u8) by {
        assert(b.subrange(p1, p2)[0] == sb[0]);
    }
    lemma_concat_subrange(b, p1, seq![content_type_bytes.len() as u8], content_type_bytes);
    lemma_field_u8_of(b, p1, content_type_bytes);
    assert(spec_field_u8(b, p1) == Some((content_type_bytes, p2)));
    // etag
    assert(b[p2] == etag_bytes.len() as u8) by {
        assert(b.subrange(p2, p3)[0] == sc[0]);
    }
    lemma_concat_subrange(b, p2, seq![etag_bytes.len() as u8], etag_bytes);
    lemma_field_u8_of(b, p2, etag_bytes);
    assert(spec_field_u8(b, p2) == Some((etag_bytes, p3)));
    // cache policy byte
    assert(b[p3] == spec_cache_byte(e.1.cache_control)) by {
        assert(b.subrange(p3, p4)[0] == sd[0]);
    }
    // content
    lemma_concat_subrange(b, p4, vstd::bytes::spec_u32_to_le_bytes(e.1.content.len() as u32),
        e.1.content);
    lemma_field_u32_of(b, p4, e.1.content);
    assert(spec_field_u32(b, p4) == Some((e.1.content, p5)));
    // gzip variant
    match e.1.content_gzip {
        None => {
            assert(b[p5] == 0) by {
                assert(b.subrange(p5, p6)[0] == sf[0]);
            }
            assert(spec_field_opt_u32(b, p5) == Some((None::<Seq<u8>>, p6)));
        },
        Some(g) => {
            let gb = spec_serialize_bytes32(g);
            assert(vstd::bytes::spec_u32_to_le_bytes(g.len() as u32).len() == 4);
            assert(b[p5] == 1) by {
                assert(b.subrange(p5, p6)[0] == sf[0]);
            }
            lemma_concat_subrange(b, p5, seq![1u8], gb);
            lemma_concat_subrange(b, p5 + 1, vstd::bytes::spec_u32_to_le_bytes(g.len() as u32), g);
            assert(g.len() <= 0xFFFF_FFFF);
            lemma_field_u32_of(b, p5 + 1, g);
            assert(spec_field_opt_u32(b, p5) == Some((Some(g), p6)));
        },
    }
    // brotli variant
    match e.1.content_brotli {
        None => {
            assert(b[p6] == 0) by {
                assert(b.subrange(p6, p7)[0] == sg[0]);
            }
            assert(spec_field_opt_u32(b, p6) == Some((None::<Seq<u8>>, p7)));
        },
        Some(v) => {
            let vb = spec_serialize_bytes32(v);
            assert(vstd::bytes::spec_u32_to_le_bytes(v.len() as u32).len() == 4);
            assert(b[p6] == 1) by {
                assert(b.subrange(p6, p7)[0] == sg[0]);
            }
            lemma_concat_subrange(b, p6, seq![1u8], vb);
            lemma_concat_subrange(b, p6 + 1, vstd::bytes::spec_u32_to_le_bytes(v.len() as u32), v);
            assert(v.len() <= 0xFFFF_FFFF);
            lemma_field_u32_of(b, p6 + 1, v);
            assert(spec_field_opt_u32(b, p6) == Some((Some(v), p7)));
        },
    }
    assert(decode_utf8(path_bytes) == e.0);
    assert(decode_utf8(content_type_bytes) == e.1.content_type);
    assert(decode_utf8(etag_bytes) == e.1.etag);
    assert(spec_parse_entry(b, pos) == Some((e, p7)));
}

/// Records written by the serializer from `pos` to the end of the buffer
/// parse back to the entries they came from.
proof fn lemma_parse_serialized_entries(b: Seq<u8>, pos: int, entries: Seq<(Seq<char>, FileView)>)
    requires
        0 <= pos <= b.len(),
        b.subrange(pos, b.len() as int) == spec_serialize_entries(entries),
        entries_fit(entries),
        forall|i: int| 0 <= i < entries.len() ==> (#[trigger] entries[i]).1.wf(),
    ensures
        spec_parse_entries(b, pos) == Some(entries),
    decreases entries.len(),
{
    if entries.len() == 0 {
        assert(b.subrange(pos, b.len() as int).len() == 0);
        assert(pos == b.len());
    } else {
        let e = entries[0];
        let se = spec_serialize_entry(e);
        let rest = spec_serialize_entries(entries.skip(1));
        assert(spec_serialize_entries(entries) == se + rest);
        let next = pos + se.len();
        assert(next <= b.len()) by {
            assert(b.subrange(pos, b.len() as int).len() == se.len() + rest.len());
        }
        assert(b.subrange(pos, next) =~= se) by {
            assert forall|i: int| 0 <= i < se.len() implies b.subrange(pos, next)[i] == se[i] by {
                assert(b.subrange(pos, b.len() as int)[i] == (se + rest)[i]);
            }
        }
        lemma_parse_serialized_entry(b, pos, e);
        assert(se.len() > 0) by {
            vstd::bytes::lemma_auto_spec_u16_to_from_le_bytes();
        }
        assert(b.subrange(next, b.len() as int) =~= rest) by {
            assert forall|i: int| 0 <= i < rest.len() implies b.subrange(next, b.len() as int)[i]
                == rest[i] by {
                assert(b.subrange(pos, b.len() as int)[i + se.len()] == (se + rest)[i + se.len()]);
            }
        }
        assert(entries_fit(entries.skip(1)) && forall|i: int|
            0 <= i < entries.skip(1).len() ==> (#[trigger] entries.skip(1)[i]).1.wf()) by {
            assert forall|i: int| 0 <= i < entries.skip(1).len() implies entry_fits(
                #[trigger] entries.skip(1)[i],
            ) && entries.skip(1)[i].1.wf() by {
                assert(entries.skip(1)[i] == entries[i + 1]);
            }
        }
        lemma_parse_serialized_entries(b, next, entries.skip(1));
        assert(seq![e] + entries.skip(1) =~= entries);
    }
}

/// Round trip: loading what the serializer wrote yields the same entries,
/// and hence a pack observably equal to the one serialized — same path
/// set, and under every path the same content, variants, content type,
/// etag and cache policy.
pub proof fn lemma_load_store_roundtrip(entries: Seq<(Seq<char>, FileView)>)
    requires
        unique_paths(entries),
        entries_fit(entries),
        forall|i: int| 0 <= i < entries.len() ==> (#[trigger] entries[i]).1.wf(),
    ensures
        spec_load(spec_serialize_pack(entries)) == Ok::<Seq<(Seq<char>, FileView)>, LoadError>(
            entries,
        ),
{
    vstd::bytes::lemma_auto_spec_u64_to_from_le_bytes();
    let b = spec_serialize_pack(entries);
    let header = crate::serialize::spec_header();
    let body = spec_serialize_entries(entries);
    assert(b.len() >= 16);
    assert(b.subrange(0, 8) =~= vstd::bytes::spec_u64_to_le_bytes(PACK_FILE_MAGIC));
    assert(b.subrange(8, 16) =~= vstd::bytes::spec_u64_to_le_bytes(PACK_FILE_VERSION));
    assert(b.subrange(16, b.len() as int) =~= body);
    lemma_parse_serialized_entries(b, 16, entries);
}

} // verus!
