//! A single servable file: content, precompressed variants and precomputed
//! response metadata.

use vstd::prelude::*;
use crate::cache_control::CacheControl;

verus! {

/// Mathematical model of a [`File`].
pub struct FileView {
    /// Raw file content.
    pub content: Seq<u8>,
    /// Gzip-compressed content, when a strictly smaller variant exists.
    pub content_gzip: Option<Seq<u8>>,
    /// Brotli-compressed content, when a strictly smaller variant exists.
    pub content_brotli: Option<Seq<u8>>,
    /// `content-type` header value for the file.
    pub content_type: Seq<char>,
    /// Quoted `ETag` header value, derived from the content.
    pub etag: Seq<char>,
    /// Cache policy of the file.
    pub cache_control: CacheControl,
}

impl FileView {
    /// A compressed variant is stored only when it improves on the raw
    /// content, so negotiation can rely on variants being strictly smaller.
    pub open spec fn wf(self) -> bool {
        &&& (self.content_gzip matches Some(g) ==> g.len() < self.content.len())
        &&& (self.content_brotli matches Some(b) ==> b.len() < self.content.len())
    }
}

/// The view of an optional byte buffer.
pub open spec fn opt_bytes_view(o: Option<Vec<u8>>) -> Option<Seq<u8>> {
    match o {
        Some(v) => Some(v@),
        None => None,
    }
}

/// A file of a pack, with all response metadata precalculated at build
/// time: compressed variants, `content-type`, `ETag` and cache policy.
#[derive(Debug)]
pub struct File {
    content: Vec<u8>,
    content_gzip: Option<Vec<u8>>,
    content_brotli: Option<Vec<u8>>,
    content_type: String,
    etag: String,
    cache_control: CacheControl,
}

impl View for File {
    type V = FileView;

    closed spec fn view(&self) -> FileView {
        FileView {
            content: self.content@,
            content_gzip: opt_bytes_view(self.content_gzip),
            content_brotli: opt_bytes_view(self.content_brotli),
            content_type: self.content_type@,
            etag: self.etag@,
            cache_control: self.cache_control,
        }
    }
}

impl File {
    /// Every [`File`] value satisfies [`FileView::wf`]; exec code holding a
    /// file can recover this with `use_type_invariant`.
    #[verifier::type_invariant]
    pub open spec fn type_inv(self) -> bool {
        self@.wf()
    }

    /// Assembles a file from its parts. A compressed variant may be given
    /// only when it is strictly smaller than the raw content.
    pub fn new(
        content: Vec<u8>,
        content_gzip: Option<Vec<u8>>,
        content_brotli: Option<Vec<u8>>,
        content_type: String,
        etag: String,
        cache_control: CacheControl,
    ) -> (r: Self)
        requires
            (opt_bytes_view(content_gzip) matches Some(g) ==> g.len() < content@.len()),
            (opt_bytes_view(content_brotli) matches Some(b) ==> b.len() < content@.len()),
        ensures
            r@ == (FileView {
                content: content@,
                content_gzip: opt_bytes_view(content_gzip),
                content_brotli: opt_bytes_view(content_brotli),
                content_type: content_type@,
                etag: etag@,
                cache_control: cache_control,
            }),
    {
        Self { content, content_gzip, content_brotli, content_type, etag, cache_control }
    }

    /// The raw (`identity`) content.
    pub fn content(&self) -> (r: &[u8])
        ensures
            r@ == self@.content,
    {
        self.content.as_slice()
    }

    /// The gzip variant, if one is stored.
    pub fn content_gzip(&self) -> (r: Option<&[u8]>)
        ensures
            match r {
                Some(s) => self@.content_gzip == Some(s@),
                None => self@.content_gzip is None,
            },
    {
        match &self.content_gzip {
            Some(v) => Some(v.as_slice()),
            None => None,
        }
    }

    /// The brotli variant, if one is stored.
    pub fn content_brotli(&self) -> (r: Option<&[u8]>)
        ensures
            match r {
                Some(s) => self@.content_brotli == Some(s@),
                None => self@.content_brotli is None,
            },
    {
        match &self.content_brotli {
            Some(v) => Some(v.as_slice()),
            None => None,
        }
    }

    /// The `content-type` header value.
    pub fn content_type(&self) -> (r: &str)
        ensures
            r@ == self@.content_type,
    {
        self.content_type.as_str()
    }

    /// The quoted `ETag` header value.
    pub fn etag(&self) -> (r: &str)
        ensures
            r@ == self@.etag,
    {
        self.etag.as_str()
    }

    /// The cache policy.
    pub fn cache_control(&self) -> (r: CacheControl)
        ensures
            r == self@.cache_control,
    {
        self.cache_control
    }
}

} // verus!
