//! Binary serialization of a pack.
//!
//! The serialized form is the 16-byte header (magic and version, each a
//! little-endian `u64`) followed by one length-prefixed record per file:
//! path (`u16` length and UTF-8 bytes), content type and etag (`u8` length
//! and UTF-8 bytes each), cache policy (one byte), content (`u32` length
//! and bytes) and the two optional variants (a presence byte, then `u32`
//! length and bytes when present). All integers are little-endian.

use vstd::prelude::*;
use vstd::bytes::{
    spec_u16_to_le_bytes, spec_u32_to_le_bytes, spec_u64_to_le_bytes, u16_to_le_bytes,
    u32_to_le_bytes, u64_to_le_bytes,
};
use vstd::utf8::encode_utf8;
use crate::cache_control::CacheControl;
use crate::file::{File, FileView};
use crate::pack::Pack;
use crate::pack_path::PackPath;
use crate::{PACK_FILE_MAGIC, PACK_FILE_VERSION};

verus! {

broadcast use vstd::slice::group_slice_axioms;

/// A string record: byte length as `u8`, then the UTF-8 bytes.
pub open spec fn spec_serialize_string8(s: Seq<char>) -> Seq<u8> {
    seq![encode_utf8(s).len() as u8] + encode_utf8(s)
}

/// A string record: byte length as little-endian `u16`, then the UTF-8
/// bytes.
pub open spec fn spec_serialize_string16(s: Seq<char>) -> Seq<u8> {
    spec_u16_to_le_bytes(encode_utf8(s).len() as u16) + encode_utf8(s)
}

/// A byte-buffer record: length as little-endian `u32`, then the bytes.
pub open spec fn spec_serialize_bytes32(b: Seq<u8>) -> Seq<u8> {
    spec_u32_to_le_bytes(b.len() as u32) + b
}

/// An optional byte-buffer record: a presence byte, then the buffer record
/// when present.
pub open spec fn spec_serialize_opt_bytes32(o: Option<Seq<u8>>) -> Seq<u8> {
    match o {
        None => seq![0u8],
        Some(b) => seq![1u8] + spec_serialize_bytes32(b),
    }
}

/// The byte a cache policy is stored as.
pub open spec fn spec_cache_byte(c: CacheControl) -> u8 {
    match c {
        CacheControl::NoCache => 0u8,
        CacheControl::MaxCache => 1u8,
    }
}

/// One file record.
pub open spec fn spec_serialize_entry(e: (Seq<char>, FileView)) -> Seq<u8> {
    spec_serialize_string16(e.0) + spec_serialize_string8(e.1.content_type)
        + spec_serialize_string8(e.1.etag) + seq![spec_cache_byte(e.1.cache_control)]
        + spec_serialize_bytes32(e.1.content) + spec_serialize_opt_bytes32(e.1.content_gzip)
        + spec_serialize_opt_bytes32(e.1.content_brotli)
}

/// The concatenated records of all entries, in order.
pub open spec fn spec_serialize_entries(s: Seq<(Seq<char>, FileView)>) -> Seq<u8>
    decreases s.len(),
{
    if s.len() == 0 {
        Seq::empty()
    } else {
        spec_serialize_entry(s[0]) + spec_serialize_entries(s.skip(1))
    }
}

/// The 16-byte file header: magic, then format version.
pub open spec fn spec_header() -> Seq<u8> {
    spec_u64_to_le_bytes(PACK_FILE_MAGIC) + spec_u64_to_le_bytes(PACK_FILE_VERSION)
}

/// The whole serialized pack.
pub open spec fn spec_serialize_pack(s: Seq<(Seq<char>, FileView)>) -> Seq<u8> {
    spec_header() + spec_serialize_entries(s)
}

/// Whether an entry's fields fit the length prefixes of the format.
pub open spec fn entry_fits(e: (Seq<char>, FileView)) -> bool {
    &&& encode_utf8(e.0).len() <= 0xFFFF
    &&& encode_utf8(e.1.content_type).len() <= 0xFF
    &&& encode_utf8(e.1.etag).len() <= 0xFF
    &&& e.1.content.len() <= 0xFFFF_FFFF
}

/// Whether every entry fits the format.
pub open spec fn entries_fit(s: Seq<(Seq<char>, FileView)>) -> bool {
    forall|i: int| 0 <= i < s.len() ==> entry_fits(#[trigger] s[i])
}

/// Appending one entry appends its record.
pub proof fn lemma_serialize_entries_push(s: Seq<(Seq<char>, FileView)>, e: (Seq<char>, FileView))
    ensures
        spec_serialize_entries(s.push(e)) == spec_serialize_entries(s) + spec_serialize_entry(e),
    decreases s.len(),
{
    if s.len() == 0 {
        assert(s.push(e)[0] == e);
        assert(s.push(e).skip(1) =~= Seq::<(Seq<char>, FileView)>::empty());
        assert(spec_serialize_entries(Seq::<(Seq<char>, FileView)>::empty())
            == Seq::<u8>::empty());
        assert(spec_serialize_entries(s.push(e)) =~= spec_serialize_entries(s)
            + spec_serialize_entry(e));
    } else {
        assert(s.push(e).skip(1) =~= s.skip(1).push(e));
        lemma_serialize_entries_push(s.skip(1), e);
        assert(s.push(e)[0] == s[0]);
        assert(spec_serialize_entries(s.push(e)) == spec_serialize_entry(s[0]) + (
        spec_serialize_entries(s.skip(1)) + spec_serialize_entry(e)));
        assert(spec_serialize_entry(s[0]) + (spec_serialize_entries(s.skip(1))
            + spec_serialize_entry(e)) =~= (spec_serialize_entry(s[0]) + spec_serialize_entries(
            s.skip(1),
        )) + spec_serialize_entry(e));
    }
}

/// Error of serializing a pack.
#[derive(Clone, Copy, PartialEq, Eq, Structural, Debug)]
pub enum StoreError {
    /// Some entry has a path, header string or content too long for the
    /// format's length prefixes.
    EntryTooLarge,
}

fn push_u8(out: &mut Vec<u8>, x: u8)
    ensures
        final(out)@ == old(out)@ + seq![x],
{
    out.push(x);
    proof {
        assert(final(out)@ =~= old(out)@ + seq![x]);
    }
}

fn push_u16_le(out: &mut Vec<u8>, x: u16)
    ensures
        final(out)@ == old(out)@ + spec_u16_to_le_bytes(x),
{
    let mut b = u16_to_le_bytes(x);
    out.append(&mut b);
}

fn push_u32_le(out: &mut Vec<u8>, x: u32)
    ensures
        final(out)@ == old(out)@ + spec_u32_to_le_bytes(x),
{
    let mut b = u32_to_le_bytes(x);
    out.append(&mut b);
}

fn push_u64_le(out: &mut Vec<u8>, x: u64)
    ensures
        final(out)@ == old(out)@ + spec_u64_to_le_bytes(x),
{
    let mut b = u64_to_le_bytes(x);
    out.append(&mut b);
}

fn push_slice(out: &mut Vec<u8>, data: &[u8])
    ensures
        final(out)@ == old(out)@ + data@,
{
    let mut i: usize = 0;
    while i < data.len()
        invariant
            i <= data@.len(),
            out@ == old(out)@ + data@.take(i as int),
        decreases data@.len() - i,
    {
        let ghost prev = out@;
        out.push(data[i]);
        proof {
            assert(out@ =~= old(out)@ + data@.take(i as int + 1));
        }
        i = i + 1;
    }
    proof {
        assert(data@.take(data@.len() as int) =~= data@);
    }
}

/// Serializes one entry's record, leaving the buffer untouched when the
/// entry does not fit the format.
#[verifier::rlimit(100)]
fn push_entry(out: &mut Vec<u8>, path: &PackPath, file: &File) -> (r: Result<(), StoreError>)
    ensures
        match r {
            Ok(()) => entry_fits((path@, file@)) && final(out)@ == old(out)@
                + spec_serialize_entry((path@, file@)),
            Err(StoreError::EntryTooLarge) => !entry_fits((path@, file@)) && final(out)@ == old(
                out,
            )@,
        },
{
    proof {
        vstd::bytes::lemma_auto_spec_u16_to_from_le_bytes();
        vstd::bytes::lemma_auto_spec_u32_to_from_le_bytes();
        use_type_invariant(file);
    }
    let ghost prev = out@;
    let path_bytes = path.as_str().as_bytes();
    let content_type_bytes = file.content_type().as_bytes();
    let etag_bytes = file.etag().as_bytes();
    let content = file.content();
    if path_bytes.len() > 0xFFFF || content_type_bytes.len() > 0xFF || etag_bytes.len() > 0xFF
        || content.len() as u64 > 0xFFFF_FFFFu64 {
        return Err(StoreError::EntryTooLarge);
    }
    push_u16_le(out, path_bytes.len() as u16);
    push_slice(out, path_bytes);
    proof {
        assert(out@ =~= prev + spec_serialize_string16(path@));
    }
    let ghost c1 = out@;
    push_u8(out, content_type_bytes.len() as u8);
    push_slice(out, content_type_bytes);
    proof {
        assert(out@ =~= c1 + spec_serialize_string8(file@.content_type));
    }
    let ghost c2 = out@;
    push_u8(out, etag_bytes.len() as u8);
    push_slice(out, etag_bytes);
    proof {
        assert(out@ =~= c2 + spec_serialize_string8(file@.etag));
    }
    let ghost c3 = out@;
    match file.cache_control() {
        CacheControl::NoCache => push_u8(out, 0),
        CacheControl::MaxCache => push_u8(out, 1),
    }
    proof {
        assert(out@ =~= c3 + seq![spec_cache_byte(file@.cache_control)]);
    }
    let ghost c4 = out@;
    push_u32_le(out, content.len() as u32);
    push_slice(out, content);
    proof {
        assert(out@ =~= c4 + spec_serialize_bytes32(file@.content));
    }
    let ghost c5 = out@;
    match file.content_gzip() {
        None => push_u8(out, 0),
        Some(g) => {
            push_u8(out, 1);
            push_u32_le(out, g.len() as u32);
            push_slice(out, g);
        }
    }
    proof {
        assert(out@ =~= c5 + spec_serialize_opt_bytes32(file@.content_gzip));
    }
    let ghost c6 = out@;
    match file.content_brotli() {
        None => push_u8(out, 0),
        Some(b) => {
            push_u8(out, 1);
            push_u32_le(out, b.len() as u32);
            push_slice(out, b);
        }
    }
    proof {
        assert(out@ =~= c6 + spec_serialize_opt_bytes32(file@.content_brotli));
        assert(out@ =~= prev + spec_serialize_entry((path@, file@)));
    }
    Ok(())
}

/// Serializes the pack into an in-memory buffer that
/// [`crate::loader::load`] accepts. Fails only when an entry's fields
/// exceed the format's length prefixes.
pub fn store_memory(pack: &Pack) -> (r: Result<Vec<u8>, StoreError>)
    ensures
        match r {
            Ok(v) => entries_fit(pack.entries_view()) && v@ == spec_serialize_pack(
                pack.entries_view(),
            ),
            Err(StoreError::EntryTooLarge) => !entries_fit(pack.entries_view()),
        },
{
    let ghost s = pack.entries_view();
    let entries = pack.raw_entries();
    let mut out: Vec<u8> = Vec::new();
    push_u64_le(&mut out, PACK_FILE_MAGIC);
    push_u64_le(&mut out, PACK_FILE_VERSION);
    proof {
        assert(s.take(0) =~= Seq::<(Seq<char>, FileView)>::empty());
        assert(out@ =~= spec_header() + spec_serialize_entries(s.take(0)));
    }
    let mut i: usize = 0;
    while i < entries.len()
        invariant
            i <= entries@.len(),
            s == pack.entries_view(),
            s == crate::pack::entries_seq_view(entries@),
            s.len() == entries@.len(),
            forall|j: int| 0 <= j < i ==> entry_fits(#[trigger] s[j]),
            out@ == spec_header() + spec_serialize_entries(s.take(i as int)),
        decreases entries@.len() - i,
    {
        let ghost prev = out@;
        let entry = &entries[i];
        proof {
            assert(s[i as int] == (entry.0@, entry.1@));
        }
        match push_entry(&mut out, &entry.0, &entry.1) {
            Ok(()) => {}
            Err(e) => {
                proof {
                    assert(!entry_fits(s[i as int]));
                }
                return Err(e);
            }
        }
        proof {
            lemma_serialize_entries_push(s.take(i as int), s[i as int]);
            assert(s.take(i as int).push(s[i as int]) =~= s.take(i as int + 1));
            assert(out@ =~= spec_header() + spec_serialize_entries(s.take(i as int + 1)));
        }
        i = i + 1;
    }
    proof {
        assert(s.take(s.len() as int) =~= s);
    }
    Ok(out)
}

} // verus!
