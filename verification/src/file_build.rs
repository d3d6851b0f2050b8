//! Building a [`File`] from raw content: compressed variants, etag and
//! content type are computed here, once, at build time.

use sha3::Digest;
use vstd::prelude::*;
use vstd::string::{StrSliceExecFns, StringExecFns};
use crate::cache_control::CacheControl;
use crate::file::{File, FileView};
use crate::text::str_eq_chars;

verus! {

/// What the gzip compressor returns for the given bytes.
pub uninterp spec fn gzip_of(content: Seq<u8>) -> Seq<u8>;

/// Relies on flate2's `GzEncoder` at best compression: writing all input
/// and finishing yields the gzip stream for those bytes, a function of
/// the input alone.
#[verifier::external_body]
fn gzip_compress(content: &[u8]) -> (r: Vec<u8>)
    ensures
        r@ == gzip_of(content@),
{
    let mut encoder = flate2::write::GzEncoder::new(Vec::new(), flate2::Compression::best());
    std::io::Write::write_all(&mut encoder, content).unwrap();
    encoder.finish().unwrap()
}

/// What the brotli compressor returns for the given bytes.
pub uninterp spec fn brotli_of(content: Seq<u8>) -> Seq<u8>;

/// Relies on `brotli::BrotliCompress` with default encoder parameters:
/// it writes the brotli stream for the input bytes, a function of the
/// input alone.
#[verifier::external_body]
fn brotli_compress(content: &[u8]) -> (r: Vec<u8>)
    ensures
        r@ == brotli_of(content@),
{
    let mut reader = std::io::Cursor::new(content);
    let mut out = Vec::new();
    brotli::BrotliCompress(&mut reader, &mut out, &brotli::enc::BrotliEncoderParams::default())
        .unwrap();
    out
}

/// What the Sha3-256 digest of the given bytes is.
pub uninterp spec fn sha3_256_of(content: Seq<u8>) -> Seq<u8>;

/// Relies on `sha3::Sha3_256`: the digest is 32 bytes and a function of
/// the input alone.
#[verifier::external_body]
fn sha3_256_digest(content: &[u8]) -> (r: Vec<u8>)
    ensures
        r@ == sha3_256_of(content@),
        r@.len() == 32,
{
    let mut hasher = sha3::Sha3_256::new();
    hasher.update(content);
    hasher.finalize().to_vec()
}

/// What the MIME guesser returns for the given path.
pub uninterp spec fn mime_of(path: Seq<char>) -> Seq<char>;

/// Relies on `mime_guess::from_path`: the guess is made from the path's
/// extension alone and falls back to `application/octet-stream`.
#[verifier::external_body]
fn guess_mime(path: &str) -> (r: String)
    ensures
        r@ == mime_of(path@),
{
    mime_guess::from_path(std::path::Path::new(path)).first_or_octet_stream().as_ref().to_owned()
}

/// The lower-case hex digit for `n`.
pub open spec fn spec_hex_char(n: int) -> char {
    "0123456789abcdef"@[n]
}

/// The lower-case hex rendering of bytes, two digits per byte.
pub open spec fn spec_hex_of(b: Seq<u8>) -> Seq<char>
    decreases b.len(),
{
    if b.len() == 0 {
        Seq::empty()
    } else {
        seq![spec_hex_char(b[0] as int / 16), spec_hex_char(b[0] as int % 16)] + spec_hex_of(
            b.skip(1),
        )
    }
}

/// Appending one byte appends its two digits.
proof fn lemma_hex_of_push(b: Seq<u8>, x: u8)
    ensures
        spec_hex_of(b.push(x)) == spec_hex_of(b) + seq![
            spec_hex_char(x as int / 16),
            spec_hex_char(x as int % 16),
        ],
    decreases b.len(),
{
    if b.len() == 0 {
        assert(b.push(x)[0] == x);
        assert(b.push(x).skip(1) =~= Seq::<u8>::empty());
        assert(spec_hex_of(Seq::<u8>::empty()) == Seq::<char>::empty());
        assert(spec_hex_of(b.push(x)) =~= spec_hex_of(b) + seq![
            spec_hex_char(x as int / 16),
            spec_hex_char(x as int % 16),
        ]);
    } else {
        assert(b.push(x)[0] == b[0]);
        assert(b.push(x).skip(1) =~= b.skip(1).push(x));
        lemma_hex_of_push(b.skip(1), x);
        assert(spec_hex_of(b.push(x)) =~= spec_hex_of(b) + seq![
            spec_hex_char(x as int / 16),
            spec_hex_char(x as int % 16),
        ]);
    }
}

/// The string holding the single hex digit for `n`.
fn hex_char_str(n: u8) -> (r: &'static str)
    requires
        n < 16,
    ensures
        r@ =~= seq![spec_hex_char(n as int)],
{
    proof {
        reveal_strlit("0123456789abcdef");
        reveal_strlit("0");
        reveal_strlit("1");
        reveal_strlit("2");
        reveal_strlit("3");
        reveal_strlit("4");
        reveal_strlit("5");
        reveal_strlit("6");
        reveal_strlit("7");
        reveal_strlit("8");
        reveal_strlit("9");
        reveal_strlit("a");
        reveal_strlit("b");
        reveal_strlit("c");
        reveal_strlit("d");
        reveal_strlit("e");
        reveal_strlit("f");
    }
    match n {
        0 => "0",
        1 => "1",
        2 => "2",
        3 => "3",
        4 => "4",
        5 => "5",
        6 => "6",
        7 => "7",
        8 => "8",
        9 => "9",
        10 => "a",
        11 => "b",
        12 => "c",
        13 => "d",
        14 => "e",
        _ => "f",
    }
}

/// The etag of some content: the quoted hex Sha3-256 digest of it. The
/// quotes are required by the http standard.
pub open spec fn spec_etag_of(content: Seq<u8>) -> Seq<char> {
    seq!['"'] + spec_hex_of(sha3_256_of(content)) + seq!['"']
}

/// Calculates the `ETag` header value for some content: same content
/// gives the same tag, different content a different tag with
/// overwhelming probability.
pub fn etag_from_content(content: &[u8]) -> (r: String)
    ensures
        r@ == spec_etag_of(content@),
{
    let digest = sha3_256_digest(content);
    let mut etag = String::from_str("\"");
    proof {
        reveal_strlit("\"");
        assert(etag@ =~= seq!['"']);
        assert(digest@.take(0) =~= Seq::<u8>::empty());
        assert(etag@ =~= seq!['"'] + spec_hex_of(digest@.take(0)));
    }
    let mut i: usize = 0;
    while i < digest.len()
        invariant
            i <= digest@.len(),
            etag@ == seq!['"'] + spec_hex_of(digest@.take(i as int)),
        decreases digest@.len() - i,
    {
        let byte = digest[i];
        etag.append(hex_char_str(byte / 16));
        etag.append(hex_char_str(byte % 16));
        proof {
            lemma_hex_of_push(digest@.take(i as int), byte);
            assert(digest@.take(i as int).push(byte) =~= digest@.take(i as int + 1));
            assert(etag@ =~= seq!['"'] + spec_hex_of(digest@.take(i as int + 1)));
        }
        i = i + 1;
    }
    proof {
        assert(digest@.take(digest@.len() as int) =~= digest@);
    }
    etag.append("\"");
    proof {
        reveal_strlit("\"");
        assert(etag@ =~= spec_etag_of(content@));
    }
    etag
}

/// The `content-type` header value derived from a guessed MIME type: the
/// javascript type is rewritten to its modern name, and text types get a
/// utf-8 charset.
pub open spec fn spec_content_type_of(mime: Seq<char>) -> Seq<char> {
    let fixed = if mime == "application/javascript"@ {
        "text/javascript"@
    } else {
        mime
    };
    if fixed.len() >= 5 && fixed.take(5) == "text/"@ {
        fixed + "; charset=utf-8"@
    } else {
        fixed
    }
}

/// Whether the string starts with `text/`.
fn starts_with_text(s: &str) -> (r: bool)
    ensures
        r == (s@.len() >= 5 && s@.take(5) == "text/"@),
{
    proof {
        reveal_strlit("text/");
    }
    if s.unicode_len() < 5 {
        return false;
    }
    let r = s.get_char(0) == 't' && s.get_char(1) == 'e' && s.get_char(2) == 'x' && s.get_char(3)
        == 't' && s.get_char(4) == '/';
    proof {
        if r {
            assert(s@.take(5) =~= "text/"@);
        } else {
            assert(s@.take(5) != "text/"@) by {
                if s@.take(5) == "text/"@ {
                    assert(s@[0] == "text/"@[0] && s@[1] == "text/"@[1] && s@[2] == "text/"@[2]
                        && s@[3] == "text/"@[3] && s@[4] == "text/"@[4]) by {
                        assert(s@.take(5)[0] == s@[0] && s@.take(5)[1] == s@[1] && s@.take(5)[2]
                            == s@[2] && s@.take(5)[3] == s@[3] && s@.take(5)[4] == s@[4]);
                    }
                }
            }
        }
    }
    r
}

/// Guesses the `content-type` header value from a file path. Only the
/// path is used, the content is never read; unknown extensions fall back
/// to `application/octet-stream`, and text types are assumed utf-8.
pub fn content_type_from_path(path: &str) -> (r: String)
    ensures
        r@ == spec_content_type_of(mime_of(path@)),
{
    let mut content_type = guess_mime(path);
    if str_eq_chars(content_type.as_str(), "application/javascript") {
        content_type = String::from_str("text/javascript");
    }
    if starts_with_text(content_type.as_str()) {
        content_type.append("; charset=utf-8");
    }
    content_type
}

/// Builds the stored gzip variant: present exactly when the content is
/// non-empty and compression makes it strictly smaller.
pub fn content_gzip_from_content(content: &[u8]) -> (r: Option<Vec<u8>>)
    ensures
        match r {
            Some(v) => content@.len() > 0 && v@ == gzip_of(content@) && v@.len() < content@.len(),
            None => content@.len() == 0 || gzip_of(content@).len() >= content@.len(),
        },
{
    // no sense in compressing empty files
    if content.is_empty() {
        return None;
    }
    let compressed = gzip_compress(content);
    // a non-improving variant is never stored
    if compressed.len() >= content.len() {
        return None;
    }
    Some(compressed)
}

/// Builds the stored brotli variant: present exactly when the content is
/// non-empty and compression makes it strictly smaller.
pub fn content_brotli_from_content(content: &[u8]) -> (r: Option<Vec<u8>>)
    ensures
        match r {
            Some(v) => content@.len() > 0 && v@ == brotli_of(content@) && v@.len()
                < content@.len(),
            None => content@.len() == 0 || brotli_of(content@).len() >= content@.len(),
        },
{
    // no sense in compressing empty files
    if content.is_empty() {
        return None;
    }
    let compressed = brotli_compress(content);
    // a non-improving variant is never stored
    if compressed.len() >= content.len() {
        return None;
    }
    Some(compressed)
}

/// Options for [`crate::file_build::build_from_content`].
#[derive(Debug)]
pub struct BuildFromContentOptions {
    /// Try storing a gzip variant; even then it is only stored when
    /// strictly smaller than the raw content.
    pub use_gzip: bool,
    /// Try storing a brotli variant; even then it is only stored when
    /// strictly smaller than the raw content.
    pub use_brotli: bool,
    /// Overrides the cache policy for this file.
    pub cache_control_override: Option<CacheControl>,
}

impl Default for BuildFromContentOptions {
    /// Both compressed variants tried, no overrides.
    fn default() -> (r: Self)
        ensures
            r.use_gzip,
            r.use_brotli,
            r.cache_control_override is None,
    {
        Self { use_gzip: true, use_brotli: true, cache_control_override: None }
    }
}

/// Options for building a file from a filesystem path.
#[derive(Debug)]
pub struct BuildFromPathOptions {
    /// Try storing a gzip variant; even then it is only stored when
    /// strictly smaller than the raw content.
    pub use_gzip: bool,
    /// Try storing a brotli variant; even then it is only stored when
    /// strictly smaller than the raw content.
    pub use_brotli: bool,
    /// Overrides the `content-type` header for this file.
    pub content_type_override: Option<String>,
    /// Overrides the cache policy for this file.
    pub cache_control_override: Option<CacheControl>,
}

impl Default for BuildFromPathOptions {
    /// Both compressed variants tried, no overrides.
    fn default() -> (r: Self)
        ensures
            r.use_gzip,
            r.use_brotli,
            r.content_type_override is None,
            r.cache_control_override is None,
    {
        Self {
            use_gzip: true,
            use_brotli: true,
            content_type_override: None,
            cache_control_override: None,
        }
    }
}

/// Global per-file command line options, resolved against the defaults.
#[derive(Debug)]
pub struct FileGlobalOptions {
    /// Whether to try a gzip variant; unset means the default.
    pub use_gzip: Option<bool>,
    /// Whether to try a brotli variant; unset means the default.
    pub use_brotli: Option<bool>,
}

impl FileGlobalOptions {
    /// Turns the command line options into build options, filling unset
    /// fields from the defaults.
    pub fn into_file_build_from_path_options(self) -> (r: BuildFromPathOptions)
        ensures
            r.use_gzip == (match self.use_gzip {
                Some(g) => g,
                None => true,
            }),
            r.use_brotli == (match self.use_brotli {
                Some(b) => b,
                None => true,
            }),
            r.content_type_override is None,
            r.cache_control_override is None,
    {
        let mut file_build_from_path_options = BuildFromPathOptions::default();
        match self.use_gzip {
            Some(use_gzip) => {
                file_build_from_path_options.use_gzip = use_gzip;
            },
            None => {},
        }
        match self.use_brotli {
            Some(use_brotli) => {
                file_build_from_path_options.use_brotli = use_brotli;
            },
            None => {},
        }
        file_build_from_path_options
    }
}

/// The file that building from content yields: variants stored only when
/// enabled and strictly smaller, the etag derived from the content, and
/// the cache policy defaulting to maximum caching of static content.
pub open spec fn spec_build_from_content(
    content: Seq<u8>,
    content_type: Seq<char>,
    use_gzip: bool,
    use_brotli: bool,
    cache_control_override: Option<CacheControl>,
) -> FileView {
    FileView {
        content: content,
        content_gzip: if use_gzip && content.len() > 0 && gzip_of(content).len() < content.len() {
            Some(gzip_of(content))
        } else {
            None
        },
        content_brotli: if use_brotli && content.len() > 0 && brotli_of(content).len()
            < content.len() {
            Some(brotli_of(content))
        } else {
            None
        },
        content_type: content_type,
        etag: spec_etag_of(content),
        cache_control: match cache_control_override {
            Some(c) => c,
            None => CacheControl::MaxCache,
        },
    }
}

/// Builds a [`File`] from raw content and its `content-type` value:
/// compressed variants are computed as the options ask, the etag is
/// calculated, and the cache policy is set.
pub fn build_from_content(
    content: Vec<u8>,
    content_type: String,
    options: &BuildFromContentOptions,
) -> (r: File)
    ensures
        r@ == spec_build_from_content(
            content@,
            content_type@,
            options.use_gzip,
            options.use_brotli,
            options.cache_control_override,
        ),
{
    let content_gzip = if options.use_gzip {
        content_gzip_from_content(content.as_slice())
    } else {
        None
    };
    let content_brotli = if options.use_brotli {
        content_brotli_from_content(content.as_slice())
    } else {
        None
    };
    let etag = etag_from_content(content.as_slice());
    let cache_control = match options.cache_control_override {
        Some(cache_control) => cache_control,
        None => CacheControl::MaxCache,
    };
    File::new(content, content_gzip, content_brotli, content_type, etag, cache_control)
}

} // verus!
