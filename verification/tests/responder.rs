use web_static_pack::body::Body;
use web_static_pack::builder::{Builder, FilePackPath};
use web_static_pack::cache_control::CacheControl;
use web_static_pack::file::File;
use web_static_pack::pack::Pack;
use web_static_pack::pack_path::PackPath;
use web_static_pack::responder::{Method, RequestHeaders, Responder, ResponderRespondError};

fn pack_with_present_file() -> Pack {
    let file = File::new(
        b"content-identity".to_vec(),
        None,
        Some(b"content-br".to_vec()),
        "text/plain; charset=utf-8".to_owned(),
        "\"etagvalue\"".to_owned(),
        CacheControl::MaxCache,
    );
    let mut builder = Builder::new();
    builder
        .file_pack_path_add(FilePackPath {
            file,
            pack_path: PackPath::from_string("/present".to_owned()),
        })
        .unwrap();
    builder.finalize()
}

fn headers(if_none_match: Option<&[u8]>, accept_encoding: Option<&[u8]>) -> RequestHeaders {
    RequestHeaders {
        if_none_match: if_none_match.map(|v| v.to_vec()),
        accept_encoding: accept_encoding.map(|v| v.to_vec()),
    }
}

#[test]
fn resolves_typical_request() {
    let pack = pack_with_present_file();
    let responder = Responder::new(&pack);

    let response = responder
        .respond(
            &Method::Get,
            "/present",
            &headers(Some(b"\"invalidetag\""), Some(b"br, gzip")),
        )
        .unwrap();

    assert_eq!(response.status, 200);
    assert_eq!(response.content_type.as_deref(), Some("text/plain; charset=utf-8"));
    assert_eq!(response.etag.as_deref(), Some("\"etagvalue\""));
    assert_eq!(response.cache_control.as_deref(), Some("max-age=31536000, immutable"));
    assert_eq!(response.content_length, Some(10));
    assert_eq!(response.content_encoding.as_deref(), Some("br"));
    assert_eq!(response.body.data(), b"content-br");
}

#[test]
fn responder_resolves_no_body_for_head_request() {
    let pack = pack_with_present_file();
    let responder = Responder::new(&pack);

    let response = responder
        .respond(&Method::Head, "/present", &RequestHeaders::default())
        .unwrap();

    assert_eq!(response.status, 200);
    assert_eq!(response.content_type.as_deref(), Some("text/plain; charset=utf-8"));
    assert_eq!(response.etag.as_deref(), Some("\"etagvalue\""));
    assert_eq!(response.content_length, Some(16));
    assert_eq!(response.content_encoding.as_deref(), Some("identity"));
    assert_eq!(response.body.data(), b"");
}

#[test]
fn responder_resolves_not_modified_for_matching_etag() {
    let pack = pack_with_present_file();
    let responder = Responder::new(&pack);

    let response = responder
        .respond(&Method::Get, "/present", &headers(Some(b"\"etagvalue\""), None))
        .unwrap();

    assert_eq!(response.status, 304);
    // the etag is resent, all other headers are omitted
    assert_eq!(response.etag.as_deref(), Some("\"etagvalue\""));
    assert!(response.content_type.is_none());
    // of course no body
    assert_eq!(response.body.data(), b"");
}

#[test]
fn responder_resolves_error_for_invalid_method() {
    let pack = pack_with_present_file();
    let responder = Responder::new(&pack);

    let response_error = responder
        .respond(&Method::Other, "/present", &RequestHeaders::default())
        .unwrap_err();
    assert_eq!(response_error, ResponderRespondError::HttpMethodNotSupported);

    let response_flatten = response_error.into_response();
    assert_eq!(response_flatten.status, 405);
    assert_eq!(response_flatten.body.data(), b"");
}

#[test]
fn responder_resolves_error_for_file_not_found() {
    let pack = pack_with_present_file();
    let responder = Responder::new(&pack);

    let response_error = responder
        .respond(&Method::Get, "/missing", &RequestHeaders::default())
        .unwrap_err();
    assert_eq!(response_error, ResponderRespondError::PackPathNotFound);

    let response_flatten = response_error.into_response();
    assert_eq!(response_flatten.status, 404);
    assert_eq!(response_flatten.body.data(), b"");
}

#[test]
fn head_returns_same_headers_as_get() {
    let pack = pack_with_present_file();
    let responder = Responder::new(&pack);

    let get = responder
        .respond(&Method::Get, "/present", &headers(None, Some(b"br")))
        .unwrap();
    let head = responder
        .respond(&Method::Head, "/present", &headers(None, Some(b"br")))
        .unwrap();

    assert_eq!(head.status, get.status);
    assert_eq!(head.content_type, get.content_type);
    assert_eq!(head.etag, get.etag);
    assert_eq!(head.cache_control, get.cache_control);
    assert_eq!(head.content_length, get.content_length);
    assert_eq!(head.content_encoding, get.content_encoding);
    assert_eq!(get.body.data(), b"content-br");
    assert_eq!(head.body.data(), b"");
}

#[test]
fn conditional_request_ignores_accept_encoding() {
    let pack = pack_with_present_file();
    let responder = Responder::new(&pack);

    let response = responder
        .respond(
            &Method::Get,
            "/present",
            &headers(Some(b"\"etagvalue\""), Some(b"br, gzip")),
        )
        .unwrap();

    assert_eq!(response.status, 304);
    assert_eq!(response.etag.as_deref(), Some("\"etagvalue\""));
    assert!(response.content_type.is_none());
    assert!(response.cache_control.is_none());
    assert!(response.content_length.is_none());
    assert!(response.content_encoding.is_none());
    assert_eq!(response.body.data(), b"");
}

#[test]
fn unparsable_accept_encoding_is_bad_request() {
    let pack = pack_with_present_file();
    let responder = Responder::new(&pack);

    let response_error = responder
        .respond(&Method::Get, "/present", &headers(None, Some(b"\xff")))
        .unwrap_err();
    assert_eq!(response_error, ResponderRespondError::UnparsableAcceptEncoding);
    assert_eq!(response_error.status_code(), 400);
}

#[test]
fn respond_flatten_serves_and_defaults() {
    let pack = pack_with_present_file();
    let responder = Responder::new(&pack);

    let ok = responder.respond_flatten(&Method::Get, "/present", &RequestHeaders::default());
    assert_eq!(ok.status, 200);
    assert_eq!(ok.body.data(), b"content-identity");

    let missing = responder.respond_flatten(&Method::Get, "/missing", &RequestHeaders::default());
    assert_eq!(missing.status, 404);
    assert_eq!(missing.body.data(), b"");
}

#[test]
fn concrete_scenario_single_text_file() {
    let file = File::new(
        b"hello".to_vec(),
        None,
        None,
        "text/plain; charset=utf-8".to_owned(),
        "\"e1\"".to_owned(),
        CacheControl::MaxCache,
    );
    let mut builder = Builder::new();
    builder
        .file_pack_path_add(FilePackPath {
            file,
            pack_path: PackPath::from_string("/a.txt".to_owned()),
        })
        .unwrap();
    let pack = builder.finalize();
    let responder = Responder::new(&pack);

    let response = responder
        .respond(&Method::Get, "/a.txt", &RequestHeaders::default())
        .unwrap();
    assert_eq!(response.status, 200);
    assert_eq!(response.content_length, Some(5));
    assert_eq!(response.content_encoding.as_deref(), Some("identity"));
    assert_eq!(response.cache_control.as_deref(), Some("max-age=31536000, immutable"));
    assert_eq!(response.body.data(), b"hello");

    let not_modified = responder
        .respond(&Method::Get, "/a.txt", &headers(Some(b"\"e1\""), None))
        .unwrap();
    assert_eq!(not_modified.status, 304);
    assert_eq!(not_modified.body.data(), b"");
}

#[test]
fn gzip_only_client_gets_gzip_variant() {
    let file = File::new(
        b"content-identity".to_vec(),
        Some(b"content-gzip".to_vec()),
        Some(b"content-br".to_vec()),
        "text/plain; charset=utf-8".to_owned(),
        "\"etagvalue\"".to_owned(),
        CacheControl::MaxCache,
    );
    let mut builder = Builder::new();
    builder
        .file_pack_path_add(FilePackPath {
            file,
            pack_path: PackPath::from_string("/present".to_owned()),
        })
        .unwrap();
    let pack = builder.finalize();
    let responder = Responder::new(&pack);

    let response = responder
        .respond(&Method::Get, "/present", &headers(None, Some(b"gzip")))
        .unwrap();
    assert_eq!(response.content_encoding.as_deref(), Some("gzip"));
    assert_eq!(response.content_length, Some(12));
    assert_eq!(response.body.data(), b"content-gzip");
}

#[test]
fn body_keeps_its_bytes() {
    let data = b"some body".to_vec();
    let body = Body::new(&data);
    assert_eq!(body.data(), b"some body");
    assert_eq!(Body::empty().data(), b"");
}
