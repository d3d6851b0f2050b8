use web_static_pack::cache_control::CacheControl;
use web_static_pack::file_build::{
    build_from_content, content_brotli_from_content, content_gzip_from_content,
    content_type_from_path, etag_from_content, BuildFromContentOptions, FileGlobalOptions,
};

#[test]
fn build_from_content_returns_expected() {
    let content_original = b"lorem ipsum lorem ipsum lorem ipsum lorem ipsum lorem ipsum";
    let content_type_original = "text/plain; charset=utf-8";

    let file = build_from_content(
        content_original.to_vec(),
        content_type_original.to_owned(),
        &BuildFromContentOptions::default(),
    );

    assert_eq!(file.content(), content_original);
    assert_eq!(
        file.content_gzip().unwrap(),
        b"\x1f\x8b\x08\x00\x00\x00\x00\x00\x02\xff\x95\xc6\x41\x09\x00\x00\x08\x03\xc0\x2a\x2b\xe7\x43\xd8\x50\x14\xfb\x9b\x61\xbf\x63\x4d\x08\xd9\x7b\x02\x3d\x3f\x1e\x08\x7c\xb8\x3b\x00\x00\x00"
    );
    assert_eq!(
        file.content_brotli().unwrap(),
        b"\x1b\x3a\x00\xf8\x1d\xa9\x53\x9f\xbb\x70\x9d\xc6\xf6\x06\xa7\xda\xe4\x1a\xa4\x6c\xae\x4e\x18\x15\x0b\x98\x56\x70\x03"
    );
    assert_eq!(file.content_type(), content_type_original);
}

#[test]
fn empty_should_not_be_compressed() {
    assert!(content_gzip_from_content(&[]).is_none());
    assert!(content_brotli_from_content(&[]).is_none());
}

#[test]
fn content_gzip_from_content_returns_expected() {
    assert_eq!(
        content_gzip_from_content(b"lorem ipsum lorem ipsum lorem ipsum lorem ipsum lorem ipsum").as_deref(),
        Some(b"\x1f\x8b\x08\x00\x00\x00\x00\x00\x02\xff\x95\xc6\x41\x09\x00\x00\x08\x03\xc0\x2a\x2b\xe7\x43\xd8\x50\x14\xfb\x9b\x61\xbf\x63\x4d\x08\xd9\x7b\x02\x3d\x3f\x1e\x08\x7c\xb8\x3b\x00\x00\x00".as_slice())
    );
}

#[test]
fn content_brotli_from_content_returns_expected() {
    assert_eq!(
        content_brotli_from_content(b"lorem ipsum lorem ipsum lorem ipsum lorem ipsum lorem ipsum").as_deref(),
        Some(b"\x1b\x3a\x00\xf8\x1d\xa9\x53\x9f\xbb\x70\x9d\xc6\xf6\x06\xa7\xda\xe4\x1a\xa4\x6c\xae\x4e\x18\x15\x0b\x98\x56\x70\x03".as_slice())
    );
}

#[test]
fn etag_from_content_returns_expected() {
    // two identical payloads should produce identical `ETag`
    // two different payloads should produce different `ETag`
    assert_eq!(etag_from_content(b"lorem ipsum"), etag_from_content(b"lorem ipsum"));
    assert_ne!(etag_from_content(b"lorem ipsum"), etag_from_content(b"ipsum lorem"));
}

#[test]
fn etag_is_quoted_hex() {
    let etag = etag_from_content(b"lorem ipsum");
    assert!(etag.starts_with('"') && etag.ends_with('"'));
    assert_eq!(etag.len(), 2 + 64);
    assert!(etag[1..65].chars().all(|c| c.is_ascii_hexdigit()));
}

#[test]
fn content_type_from_path_returns_expected() {
    assert_eq!(content_type_from_path("a.html"), "text/html; charset=utf-8");
    assert_eq!(content_type_from_path("directory/styles.css"), "text/css; charset=utf-8");
    assert_eq!(
        content_type_from_path("/root/dir/script.00ff00.js"),
        "text/javascript; charset=utf-8"
    );
    assert_eq!(content_type_from_path("SomeImage.webp"), "image/webp");
    assert_eq!(content_type_from_path("unknown.zzz-unknown"), "application/octet-stream");
}

#[test]
fn build_from_content_respects_options() {
    let content = b"lorem ipsum lorem ipsum lorem ipsum lorem ipsum lorem ipsum";

    let no_compression = build_from_content(
        content.to_vec(),
        "text/plain; charset=utf-8".to_owned(),
        &BuildFromContentOptions {
            use_gzip: false,
            use_brotli: false,
            cache_control_override: Some(CacheControl::NoCache),
        },
    );
    assert!(no_compression.content_gzip().is_none());
    assert!(no_compression.content_brotli().is_none());
    assert_eq!(no_compression.cache_control(), CacheControl::NoCache);

    let default = build_from_content(
        content.to_vec(),
        "text/plain; charset=utf-8".to_owned(),
        &BuildFromContentOptions::default(),
    );
    assert_eq!(default.cache_control(), CacheControl::MaxCache);
}

#[test]
fn file_global_options_fill_defaults() {
    let defaults = FileGlobalOptions { use_gzip: None, use_brotli: None }
        .into_file_build_from_path_options();
    assert!(defaults.use_gzip);
    assert!(defaults.use_brotli);
    assert!(defaults.content_type_override.is_none());
    assert!(defaults.cache_control_override.is_none());

    let overridden = FileGlobalOptions { use_gzip: Some(false), use_brotli: Some(true) }
        .into_file_build_from_path_options();
    assert!(!overridden.use_gzip);
    assert!(overridden.use_brotli);
}

#[test]
fn cache_control_header_values() {
    assert_eq!(CacheControl::NoCache.cache_control(), "no-cache");
    assert_eq!(CacheControl::MaxCache.cache_control(), "max-age=31536000, immutable");
}
