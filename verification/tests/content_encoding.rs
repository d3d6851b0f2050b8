use web_static_pack::cache_control::CacheControl;
use web_static_pack::content_encoding::{
    ContentContentEncoding, ContentEncoding, EncodingAccepted,
};
use web_static_pack::file::File;

fn file_with_variants(
    content: &[u8],
    content_gzip: Option<&[u8]>,
    content_brotli: Option<&[u8]>,
) -> File {
    File::new(
        content.to_vec(),
        content_gzip.map(|v| v.to_vec()),
        content_brotli.map(|v| v.to_vec()),
        "text/plain; charset=utf-8".to_owned(),
        "\"etagvalue\"".to_owned(),
        CacheControl::MaxCache,
    )
}

#[test]
fn from_accept_encoding_header_str_returns_expected() {
    let cases: &[(&str, bool, bool)] = &[
        ("", false, false),
        ("gzip", true, false),
        ("br", false, true),
        ("deflate, gzip;q=1.0", true, false),
        ("gzip, compress, br", true, true),
        ("br, gzip", true, true),
        ("gzipx", false, false),
        ("x, br;q=0.5", false, true),
    ];
    for (value, gzip, brotli) in cases {
        let parsed = EncodingAccepted::from_accept_encoding_header_str(value);
        assert_eq!(parsed.gzip, *gzip, "gzip for {value:?}");
        assert_eq!(parsed.brotli, *brotli, "brotli for {value:?}");
    }
}

#[test]
fn extract_algorithm_from_value_returns_expected() {
    assert_eq!(EncodingAccepted::extract_algorithm_from_value(""), "");
    assert_eq!(EncodingAccepted::extract_algorithm_from_value("gzip"), "gzip");
    assert_eq!(EncodingAccepted::extract_algorithm_from_value("gzip;q=1.0"), "gzip");
    assert_eq!(EncodingAccepted::extract_algorithm_from_value("br;q=0.5;q=1"), "br");
}

#[test]
fn from_accept_encoding_header_raw_returns_expected() {
    assert!(EncodingAccepted::from_accept_encoding_header_raw(b"\xff").is_err());
    let none = EncodingAccepted::from_accept_encoding_header_raw(b"").unwrap();
    assert!(!none.gzip && !none.brotli);
    let both = EncodingAccepted::from_accept_encoding_header_raw(b"gzip, compress, br").unwrap();
    assert!(both.gzip && both.brotli);
}

#[test]
fn none_accepts_nothing() {
    let none = EncodingAccepted::none();
    assert!(!none.gzip);
    assert!(!none.brotli);
}

#[test]
fn resolve_returns_expected() {
    // nothing provided, nothing accepted
    let file = file_with_variants(b"content-identity", None, None);
    let resolved = ContentContentEncoding::resolve(&EncodingAccepted::none(), &file);
    assert_eq!(resolved.content, b"content-identity");
    assert_eq!(resolved.content_encoding, ContentEncoding::Identity);

    // all provided, nothing accepted
    let file = file_with_variants(b"content-identity", Some(b"content-gzip"), Some(b"content-c"));
    let resolved = ContentContentEncoding::resolve(&EncodingAccepted::none(), &file);
    assert_eq!(resolved.content, b"content-identity");
    assert_eq!(resolved.content_encoding, ContentEncoding::Identity);

    // all accepted, nothing provided
    let file = file_with_variants(b"content-identity", None, None);
    let resolved = ContentContentEncoding::resolve(
        &EncodingAccepted { gzip: true, brotli: true },
        &file,
    );
    assert_eq!(resolved.content, b"content-identity");
    assert_eq!(resolved.content_encoding, ContentEncoding::Identity);

    // brotli wins as the shortest
    let file = file_with_variants(b"content-aaa", Some(b"content-bb"), Some(b"content-c"));
    let resolved = ContentContentEncoding::resolve(
        &EncodingAccepted { gzip: true, brotli: true },
        &file,
    );
    assert_eq!(resolved.content, b"content-c");
    assert_eq!(resolved.content_encoding, ContentEncoding::Brotli);
}

#[test]
fn negotiation_determinism() {
    // gzip smaller than identity, brotli smaller than gzip
    let file = file_with_variants(b"0123456789", Some(b"01234567"), Some(b"012345"));

    let both = ContentContentEncoding::resolve(&EncodingAccepted { gzip: true, brotli: true }, &file);
    assert_eq!(both.content_encoding, ContentEncoding::Brotli);

    let gzip_only =
        ContentContentEncoding::resolve(&EncodingAccepted { gzip: true, brotli: false }, &file);
    assert_eq!(gzip_only.content_encoding, ContentEncoding::Gzip);

    let neither =
        ContentContentEncoding::resolve(&EncodingAccepted { gzip: false, brotli: false }, &file);
    assert_eq!(neither.content_encoding, ContentEncoding::Identity);
}

#[test]
fn negotiation_tie_break_prefers_brotli() {
    // gzip and brotli variants of equal length
    let file = file_with_variants(b"0123456789", Some(b"01234567"), Some(b"abcdefgh"));
    let resolved = ContentContentEncoding::resolve(
        &EncodingAccepted { gzip: true, brotli: true },
        &file,
    );
    assert_eq!(resolved.content_encoding, ContentEncoding::Brotli);
    assert_eq!(resolved.content, b"abcdefgh");
}
