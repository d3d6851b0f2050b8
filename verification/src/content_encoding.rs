//! Content encoding negotiation: parsing `accept-encoding` and picking the
//! best stored variant.

use vstd::prelude::*;
use vstd::string::StrSliceExecFns;
use vstd::utf8::{decode_utf8, valid_utf8};
use crate::file::{File, FileView};
use crate::text::str_eq_chars;

verus! {

/// Index of the first `", "` separator in `s`, or `-1` when there is none.
pub open spec fn spec_find_sep(s: Seq<char>) -> int
    decreases s.len(),
{
    if s.len() < 2 {
        -1
    } else if s[0] == ',' && s[1] == ' ' {
        0
    } else {
        let r = spec_find_sep(s.skip(1));
        if r == -1 {
            -1
        } else {
            r + 1
        }
    }
}

/// Index of the first `";q="` marker in `s`, or `-1` when there is none.
pub open spec fn spec_find_quality(s: Seq<char>) -> int
    decreases s.len(),
{
    if s.len() < 3 {
        -1
    } else if s[0] == ';' && s[1] == 'q' && s[2] == '=' {
        0
    } else {
        let r = spec_find_quality(s.skip(1));
        if r == -1 {
            -1
        } else {
            r + 1
        }
    }
}

/// An `accept-encoding` list item with its quality weight removed: the
/// part before the first `";q="`, or the whole item.
pub open spec fn spec_algorithm_of(t: Seq<char>) -> Seq<char> {
    let k = spec_find_quality(t);
    if k == -1 {
        t
    } else {
        t.take(k)
    }
}

/// Whether the `", "`-separated list `s` contains an item whose algorithm
/// is `w`.
pub open spec fn spec_accepts(s: Seq<char>, w: Seq<char>) -> bool
    decreases s.len(),
{
    let k = spec_find_sep(s);
    if k == -1 {
        spec_algorithm_of(s) == w
    } else if !(0 <= k && k + 2 <= s.len()) {
        false
    } else {
        spec_algorithm_of(s.take(k)) == w || spec_accepts(s.skip(k + 2), w)
    }
}

proof fn lemma_find_sep_char(s: Seq<char>)
    ensures
        ({
            let k = spec_find_sep(s);
            &&& (k == -1 ==> forall|j: int|
                0 <= j && j + 2 <= s.len() ==> !((#[trigger] s[j]) == ',' && s[j + 1] == ' '))
            &&& (k != -1 ==> 0 <= k && k + 2 <= s.len() && s[k] == ',' && s[k + 1] == ' '
                && forall|j: int| 0 <= j < k ==> !((#[trigger] s[j]) == ',' && s[j + 1] == ' '))
        }),
    decreases s.len(),
{
    if s.len() < 2 {
    } else if s[0] == ',' && s[1] == ' ' {
    } else {
        lemma_find_sep_char(s.skip(1));
        let r = spec_find_sep(s.skip(1));
        assert(forall|j: int| 0 <= j && j + 2 <= s.skip(1).len() ==> (#[trigger] s.skip(1)[j]) == s[j + 1]
            && s.skip(1)[j + 1] == s[j + 2]);
        if r == -1 {
            assert forall|j: int| 0 <= j && j + 2 <= s.len() implies !((#[trigger] s[j]) == ',' && s[j + 1]
                == ' ') by {
                if j > 0 {
                    assert(s.skip(1)[j - 1] == s[j] && s.skip(1)[j] == s[j + 1]);
                }
            }
        } else {
            assert(s[r + 1] == s.skip(1)[r] && s[r + 2] == s.skip(1)[r + 1]);
            assert forall|j: int| 0 <= j < r + 1 implies !((#[trigger] s[j]) == ',' && s[j + 1] == ' ') by {
                if j > 0 {
                    assert(s.skip(1)[j - 1] == s[j] && s.skip(1)[j] == s[j + 1]);
                }
            }
        }
    }
}

proof fn lemma_find_quality_char(s: Seq<char>)
    ensures
        ({
            let k = spec_find_quality(s);
            &&& (k == -1 ==> forall|j: int|
                0 <= j && j + 3 <= s.len() ==> !((#[trigger] s[j]) == ';' && s[j + 1] == 'q' && s[j + 2] == '='))
            &&& (k != -1 ==> 0 <= k && k + 3 <= s.len() && s[k] == ';' && s[k + 1] == 'q' && s[k
                + 2] == '=' && forall|j: int|
                0 <= j < k ==> !((#[trigger] s[j]) == ';' && s[j + 1] == 'q' && s[j + 2] == '='))
        }),
    decreases s.len(),
{
    if s.len() < 3 {
    } else if s[0] == ';' && s[1] == 'q' && s[2] == '=' {
    } else {
        lemma_find_quality_char(s.skip(1));
        let r = spec_find_quality(s.skip(1));
        assert(forall|j: int| 0 <= j && j + 3 <= s.skip(1).len() ==> (#[trigger] s.skip(1)[j]) == s[j + 1]
            && s.skip(1)[j + 1] == s[j + 2] && s.skip(1)[j + 2] == s[j + 3]);
        if r == -1 {
            assert forall|j: int| 0 <= j && j + 3 <= s.len() implies !((#[trigger] s[j]) == ';' && s[j + 1]
                == 'q' && s[j + 2] == '=') by {
                if j > 0 {
                    assert(s.skip(1)[j - 1] == s[j] && s.skip(1)[j] == s[j + 1] && s.skip(1)[j + 1]
                        == s[j + 2]);
                }
            }
        } else {
            assert(s[r + 1] == s.skip(1)[r] && s[r + 2] == s.skip(1)[r + 1] && s[r + 3] == s.skip(
                1,
            )[r + 2]);
            assert forall|j: int| 0 <= j < r + 1 implies !((#[trigger] s[j]) == ';' && s[j + 1] == 'q' && s[j
                + 2] == '=') by {
                if j > 0 {
                    assert(s.skip(1)[j - 1] == s[j] && s.skip(1)[j] == s[j + 1] && s.skip(1)[j + 1]
                        == s[j + 2]);
                }
            }
        }
    }
}

/// Describes which content encodings a client accepts. `identity` is
/// always considered acceptable.
#[derive(PartialEq, Eq, Structural, Debug)]
pub struct EncodingAccepted {
    /// Whether `gzip` encoding is accepted.
    pub gzip: bool,
    /// Whether `br` (brotli) encoding is accepted.
    pub brotli: bool,
}

/// Error of reading the `accept-encoding` header value.
#[derive(Clone, Copy, PartialEq, Eq, Structural, Debug)]
pub enum AcceptEncodingError {
    /// The header value is not UTF-8.
    NotUtf8,
}

impl EncodingAccepted {
    /// No encoding beside the always-available identity.
    pub fn none() -> (r: Self)
        ensures
            !r.gzip,
            !r.brotli,
    {
        Self { gzip: false, brotli: false }
    }

    /// Finds the first `", "` separator at or after `start`.
    fn find_sep_from(s: &str, start: usize) -> (r: Option<usize>)
        requires
            start <= s@.len(),
        ensures
            ({
                let k = spec_find_sep(s@.skip(start as int));
                match r {
                    Some(j) => start + k == j && k >= 0 && j + 2 <= s@.len(),
                    None => k == -1,
                }
            }),
    {
        let n = s.unicode_len();
        let ghost suffix = s@.skip(start as int);
        let mut j: usize = start;
        while n - j > 1
            invariant
                start <= j,
                j <= n,
                n == s@.len(),
                suffix == s@.skip(start as int),
                forall|t: int| start <= t < j ==> !((#[trigger] s@[t]) == ',' && s@[t + 1] == ' '),
            decreases n - j,
        {
            if s.get_char(j) == ',' && s.get_char(j + 1) == ' ' {
                proof {
                    lemma_find_sep_char(suffix);
                    assert(suffix[j - start] == s@[j as int] && suffix[j - start + 1] == s@[j + 1]);
                    assert forall|t: int| 0 <= t < j - start implies !((#[trigger] suffix[t]) == ','
                        && suffix[t + 1] == ' ') by {
                        assert(suffix[t] == s@[start + t] && suffix[t + 1] == s@[start + t + 1]);
                    }
                    assert(spec_find_sep(suffix) == j - start);
                }
                return Some(j);
            }
            j = j + 1;
        }
        proof {
            lemma_find_sep_char(suffix);
            assert forall|t: int| 0 <= t && t + 2 <= suffix.len() implies !((#[trigger] suffix[t]) == ','
                && suffix[t + 1] == ' ') by {
                assert(suffix[t] == s@[start + t] && suffix[t + 1] == s@[start + t + 1]);
            }
        }
        None
    }

    /// Removes the quality weight from an `accept-encoding` list item:
    /// `gzip;q=0.5` becomes `gzip`.
    pub fn extract_algorithm_from_value(value: &str) -> (r: &str)
        ensures
            r@ == spec_algorithm_of(value@),
    {
        let n = value.unicode_len();
        let mut j: usize = 0;
        while n - j > 2
            invariant
                j <= n,
                n == value@.len(),
                forall|t: int|
                    0 <= t < j ==> !((#[trigger] value@[t]) == ';' && value@[t + 1] == 'q' && value@[t + 2]
                        == '='),
            decreases n - j,
        {
            if value.get_char(j) == ';' && value.get_char(j + 1) == 'q' && value.get_char(j + 2)
                == '=' {
                proof {
                    lemma_find_quality_char(value@);
                    assert(spec_find_quality(value@) == j);
                }
                let prefix = value.substring_char(0, j);
                proof {
                    assert(prefix@ =~= value@.take(j as int));
                }
                return prefix;
            }
            j = j + 1;
        }
        proof {
            lemma_find_quality_char(value@);
            assert(spec_find_quality(value@) == -1);
        }
        value
    }

    /// Reads which of gzip and brotli the `accept-encoding` header value
    /// accepts: an encoding is accepted when some `", "`-separated item
    /// names it, after any `";q="` weight is removed.
    pub fn from_accept_encoding_header_str(accept_encoding: &str) -> (r: Self)
        ensures
            r.gzip == spec_accepts(accept_encoding@, "gzip"@),
            r.brotli == spec_accepts(accept_encoding@, "br"@),
    {
        let n = accept_encoding.unicode_len();
        let mut gzip = false;
        let mut brotli = false;
        let mut start: usize = 0;
        proof {
            assert(accept_encoding@.skip(0) =~= accept_encoding@);
        }
        loop
            invariant
                start <= n,
                n == accept_encoding@.len(),
                spec_accepts(accept_encoding@, "gzip"@) == (gzip || spec_accepts(
                    accept_encoding@.skip(start as int),
                    "gzip"@,
                )),
                spec_accepts(accept_encoding@, "br"@) == (brotli || spec_accepts(accept_encoding@.skip(start as int), "br"@)),
            decreases n - start,
        {
            let ghost suffix = accept_encoding@.skip(start as int);
            match Self::find_sep_from(accept_encoding, start) {
                None => {
                    let token = accept_encoding.substring_char(start, n);
                    proof {
                        assert(token@ =~= suffix);
                    }
                    let algorithm = Self::extract_algorithm_from_value(token);
                    proof {
                        reveal_strlit("gzip");
                        reveal_strlit("br");
                        assert("gzip"@.len() != "br"@.len());
                    }
                    if str_eq_chars(algorithm, "gzip") {
                        gzip = true;
                    } else if str_eq_chars(algorithm, "br") {
                        brotli = true;
                    }
                    proof {
                        assert(spec_accepts(suffix, "gzip"@) == (spec_algorithm_of(suffix)
                            == "gzip"@));
                        assert(spec_accepts(suffix, "br"@) == (spec_algorithm_of(suffix)
                            == "br"@));
                    }
                    return Self { gzip, brotli };
                },
                Some(j) => {
                    let token = accept_encoding.substring_char(start, j);
                    proof {
                        assert(token@ =~= suffix.take(j - start));
                    }
                    let algorithm = Self::extract_algorithm_from_value(token);
                    proof {
                        reveal_strlit("gzip");
                        reveal_strlit("br");
                        assert("gzip"@.len() != "br"@.len());
                    }
                    if str_eq_chars(algorithm, "gzip") {
                        gzip = true;
                    } else if str_eq_chars(algorithm, "br") {
                        brotli = true;
                    }
                    proof {
                        assert(accept_encoding@.skip(j + 2) =~= suffix.skip(j - start + 2));
                    }
                    start = j + 2;
                },
            }
        }
    }

    /// Reads the accepted encodings from the request headers: an absent
    /// `accept-encoding` header accepts nothing beyond identity.
    pub fn from_headers(headers: &crate::responder::RequestHeaders) -> (r: Result<
        Self,
        AcceptEncodingError,
    >)
        ensures
            match r {
                Ok(e) => match crate::file::opt_bytes_view(headers.accept_encoding) {
                    None => !e.gzip && !e.brotli,
                    Some(ae) => valid_utf8(ae) && e.gzip == spec_accepts(decode_utf8(ae), "gzip"@)
                        && e.brotli == spec_accepts(decode_utf8(ae), "br"@),
                },
                Err(AcceptEncodingError::NotUtf8) => (crate::file::opt_bytes_view(
                    headers.accept_encoding,
                ) matches Some(ae) && !valid_utf8(ae)),
            },
    {
        let accept_encoding = match &headers.accept_encoding {
            Some(accept_encoding) => accept_encoding,
            None => {
                return Ok(Self::none());
            },
        };
        Self::from_accept_encoding_header_raw(accept_encoding.as_slice())
    }

    /// Reads the header value as UTF-8 and parses it; a non-UTF-8 value
    /// is rejected.
    pub fn from_accept_encoding_header_raw(accept_encoding: &[u8]) -> (r: Result<
        Self,
        AcceptEncodingError,
    >)
        ensures
            match r {
                Ok(e) => valid_utf8(accept_encoding@) && e.gzip == spec_accepts(
                    decode_utf8(accept_encoding@),
                    "gzip"@,
                ) && e.brotli == spec_accepts(decode_utf8(accept_encoding@), "br"@),
                Err(AcceptEncodingError::NotUtf8) => !valid_utf8(accept_encoding@),
            },
    {
        let s = match crate::text::try_str_from_utf8(accept_encoding) {
            Some(s) => s,
            None => {
                return Err(AcceptEncodingError::NotUtf8);
            },
        };
        Ok(Self::from_accept_encoding_header_str(s))
    }
}

/// The encoding a response body is sent in.
#[derive(Clone, Copy, PartialEq, Eq, Structural, Debug)]
pub enum ContentEncoding {
    /// The raw content.
    Identity,
    /// The gzip variant.
    Gzip,
    /// The brotli variant.
    Brotli,
}

impl ContentEncoding {
    /// The `content-encoding` header value naming this encoding.
    pub open spec fn spec_label(self) -> Seq<char> {
        match self {
            ContentEncoding::Identity => "identity"@,
            ContentEncoding::Gzip => "gzip"@,
            ContentEncoding::Brotli => "br"@,
        }
    }

    /// The `content-encoding` header value naming this encoding.
    pub fn as_str(&self) -> (r: &'static str)
        ensures
            r@ == self.spec_label(),
    {
        match self {
            ContentEncoding::Identity => "identity",
            ContentEncoding::Gzip => "gzip",
            ContentEncoding::Brotli => "br",
        }
    }
}

/// The bytes a file serves under the given encoding.
pub open spec fn spec_selected_bytes(f: FileView, enc: ContentEncoding) -> Seq<u8> {
    match enc {
        ContentEncoding::Identity => f.content,
        ContentEncoding::Gzip => match f.content_gzip {
            Some(g) => g,
            None => Seq::empty(),
        },
        ContentEncoding::Brotli => match f.content_brotli {
            Some(v) => v,
            None => Seq::empty(),
        },
    }
}

/// The encoding negotiation picks: starting from identity, gzip is taken
/// when accepted, stored and no longer than the current best; brotli is
/// considered after gzip under the same rule, so brotli wins a tie.
pub open spec fn spec_negotiate(gzip_ok: bool, brotli_ok: bool, f: FileView) -> ContentEncoding {
    let after_gzip = match f.content_gzip {
        Some(g) => if gzip_ok && g.len() <= f.content.len() {
            ContentEncoding::Gzip
        } else {
            ContentEncoding::Identity
        },
        None => ContentEncoding::Identity,
    };
    let current = spec_selected_bytes(f, after_gzip);
    match f.content_brotli {
        Some(v) => if brotli_ok && v.len() <= current.len() {
            ContentEncoding::Brotli
        } else {
            after_gzip
        },
        None => after_gzip,
    }
}

/// Content resolved to the encoding that negotiation picked: what the
/// response body will be and what `content-encoding` says.
#[derive(PartialEq, Eq, Debug)]
pub struct ContentContentEncoding<'c> {
    /// The bytes to send as the response body.
    pub content: &'c [u8],
    /// The encoding those bytes are in.
    pub content_encoding: ContentEncoding,
}

impl<'c> ContentContentEncoding<'c> {
    /// Picks the best encoding the client accepts among the variants the
    /// file stores, smallest first, brotli winning ties with gzip.
    pub fn resolve(encoding_accepted: &EncodingAccepted, file: &'c File) -> (r: Self)
        ensures
            r.content_encoding == spec_negotiate(
                encoding_accepted.gzip,
                encoding_accepted.brotli,
                file@,
            ),
            r.content@ == spec_selected_bytes(file@, r.content_encoding),
    {
        let mut content = file.content();
        let mut content_encoding = ContentEncoding::Identity;
        if encoding_accepted.gzip {
            match file.content_gzip() {
                Some(g) => if g.len() <= content.len() {
                    content = g;
                    content_encoding = ContentEncoding::Gzip;
                },
                None => {},
            }
        }
        if encoding_accepted.brotli {
            match file.content_brotli() {
                Some(v) => if v.len() <= content.len() {
                    content = v;
                    content_encoding = ContentEncoding::Brotli;
                },
                None => {},
            }
        }
        Self { content, content_encoding }
    }
}

/// Negotiation determinism: when the gzip variant improves on the raw
/// content and the brotli variant improves on gzip, accepting both picks
/// brotli, accepting only gzip picks gzip, and accepting neither leaves
/// identity.
pub proof fn lemma_negotiation_determinism(f: FileView)
    requires
        f.content_gzip is Some,
        f.content_brotli is Some,
        spec_selected_bytes(f, ContentEncoding::Gzip).len() < f.content.len(),
        spec_selected_bytes(f, ContentEncoding::Brotli).len() < spec_selected_bytes(
            f,
            ContentEncoding::Gzip,
        ).len(),
    ensures
        spec_negotiate(true, true, f) == ContentEncoding::Brotli,
        spec_negotiate(true, false, f) == ContentEncoding::Gzip,
        spec_negotiate(false, false, f) == ContentEncoding::Identity,
{
}

/// Negotiation tie-break: when the stored gzip and brotli variants have
/// equal length, a client accepting both is served brotli.
pub proof fn lemma_negotiation_tie_break(f: FileView)
    requires
        f.wf(),
        f.content_gzip is Some,
        f.content_brotli is Some,
        spec_selected_bytes(f, ContentEncoding::Gzip).len() == spec_selected_bytes(
            f,
            ContentEncoding::Brotli,
        ).len(),
    ensures
        spec_negotiate(true, true, f) == ContentEncoding::Brotli,
{
}

} // verus!
