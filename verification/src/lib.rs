//! A pack of static files served over HTTP.
//!
//! A tree of files is collected into a single immutable *pack*: a mapping
//! from request path to a file entry that carries the raw content, optional
//! precompressed variants, and precomputed response headers. The pack is
//! serialized into a self-describing byte buffer and loaded back by a
//! validating parser; a responder answers GET/HEAD requests against it with
//! conditional-request and content-negotiation semantics.

use vstd::prelude::*;

pub mod body;
pub mod builder;
pub mod cache_control;
pub mod content_encoding;
pub mod directory;
pub mod file;
pub mod file_build;
pub mod loader;
pub mod pack;
pub mod pack_path;
pub mod responder;
pub mod serialize;
pub mod text;

verus! {

/// Eight-byte magic constant at the start of every serialized pack; the
/// loader rejects buffers that do not begin with it.
pub const PACK_FILE_MAGIC: u64 = 0x479a01809f24813c;

/// Format version stored after the magic; the loader accepts an exact match
/// only.
pub const PACK_FILE_VERSION: u64 = 1;

} // verus!
