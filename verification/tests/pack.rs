use web_static_pack::builder::{Builder, BuilderError, FilePackPath};
use web_static_pack::cache_control::CacheControl;
use web_static_pack::file::File;
use web_static_pack::loader::{load, LoadError};
use web_static_pack::pack_path::{from_components, PackPath};
use web_static_pack::serialize::{store_memory, StoreError};
use web_static_pack::{PACK_FILE_MAGIC, PACK_FILE_VERSION};

fn sample_file() -> File {
    File::new(
        b"content-identity".to_vec(),
        Some(b"content-gzip".to_vec()),
        Some(b"content-br".to_vec()),
        "text/plain; charset=utf-8".to_owned(),
        "\"etagvalue\"".to_owned(),
        CacheControl::MaxCache,
    )
}

fn plain_file(content: &[u8]) -> File {
    File::new(
        content.to_vec(),
        None,
        None,
        "application/octet-stream".to_owned(),
        "\"tag\"".to_owned(),
        CacheControl::NoCache,
    )
}

fn entry(path: &str, file: File) -> FilePackPath {
    FilePackPath {
        file,
        pack_path: PackPath::from_string(path.to_owned()),
    }
}

#[test]
fn store_and_load_round_trip() {
    let mut builder = Builder::new();
    builder.file_pack_path_add(entry("/present", sample_file())).unwrap();
    builder.file_pack_path_add(entry("/other", plain_file(b"hello"))).unwrap();
    builder.file_pack_path_add(entry("/empty", plain_file(b""))).unwrap();
    let pack = builder.finalize();

    let serialized = store_memory(&pack).unwrap();
    let loaded = load(&serialized).unwrap();

    assert_eq!(loaded.len(), 3);

    let present = loaded.get_file_by_path("/present").unwrap();
    assert_eq!(present.content(), b"content-identity");
    assert_eq!(present.content_gzip(), Some(b"content-gzip".as_slice()));
    assert_eq!(present.content_brotli(), Some(b"content-br".as_slice()));
    assert_eq!(present.content_type(), "text/plain; charset=utf-8");
    assert_eq!(present.etag(), "\"etagvalue\"");
    assert_eq!(present.cache_control(), CacheControl::MaxCache);

    let other = loaded.get_file_by_path("/other").unwrap();
    assert_eq!(other.content(), b"hello");
    assert!(other.content_gzip().is_none());
    assert!(other.content_brotli().is_none());
    assert_eq!(other.cache_control(), CacheControl::NoCache);

    let empty = loaded.get_file_by_path("/empty").unwrap();
    assert_eq!(empty.content(), b"");

    assert!(loaded.get_file_by_path("/missing").is_none());

    // serializing the loaded pack reproduces the bytes
    let reserialized = store_memory(&loaded).unwrap();
    assert_eq!(serialized, reserialized);
}

#[test]
fn round_trip_keeps_unicode_paths() {
    let mut builder = Builder::new();
    builder
        .file_pack_path_add(entry("/unterlagen/büro.txt", plain_file(b"inhalt")))
        .unwrap();
    let pack = builder.finalize();

    let serialized = store_memory(&pack).unwrap();
    let loaded = load(&serialized).unwrap();

    let file = loaded.get_file_by_path("/unterlagen/büro.txt").unwrap();
    assert_eq!(file.content(), b"inhalt");
    assert!(loaded.get_file_by_path("/unterlagen/buro.txt").is_none());
}

#[test]
fn builder_rejects_duplicate_path() {
    let mut builder = Builder::new();
    builder.file_pack_path_add(entry("/same", plain_file(b"first"))).unwrap();
    let error = builder
        .file_pack_path_add(entry("/same", plain_file(b"second")))
        .unwrap_err();
    assert_eq!(error, BuilderError::DuplicatePath);

    // the pack still holds the first file
    let pack = builder.finalize();
    let file = pack.get_file_by_path("/same").unwrap();
    assert_eq!(file.content(), b"first");
}

#[test]
fn builder_adds_many_until_first_duplicate() {
    let mut builder = Builder::new();
    let error = builder
        .file_pack_paths_add(vec![
            entry("/a", plain_file(b"a")),
            entry("/b", plain_file(b"b")),
            entry("/a", plain_file(b"again")),
            entry("/c", plain_file(b"c")),
        ])
        .unwrap_err();
    assert_eq!(error, BuilderError::DuplicatePath);

    // entries added before the duplicate stay
    let pack = builder.finalize();
    assert_eq!(pack.len(), 2);
    assert_eq!(pack.get_file_by_path("/a").unwrap().content(), b"a");
    assert_eq!(pack.get_file_by_path("/b").unwrap().content(), b"b");
    assert!(pack.get_file_by_path("/c").is_none());
}

#[test]
fn load_rejects_truncated_buffer() {
    assert_eq!(load(b"").unwrap_err(), LoadError::Truncated);
    assert_eq!(load(&[0u8; 15]).unwrap_err(), LoadError::Truncated);
}

#[test]
fn load_rejects_bad_magic() {
    let mut bytes = Vec::new();
    bytes.extend_from_slice(&0u64.to_le_bytes());
    bytes.extend_from_slice(&PACK_FILE_VERSION.to_le_bytes());
    assert_eq!(load(&bytes).unwrap_err(), LoadError::BadMagic);
}

#[test]
fn load_rejects_version_mismatch() {
    let mut bytes = Vec::new();
    bytes.extend_from_slice(&PACK_FILE_MAGIC.to_le_bytes());
    bytes.extend_from_slice(&(PACK_FILE_VERSION + 1).to_le_bytes());
    assert_eq!(load(&bytes).unwrap_err(), LoadError::VersionMismatch);
}

#[test]
fn load_accepts_empty_pack() {
    let pack = Builder::new().finalize();
    let serialized = store_memory(&pack).unwrap();
    assert_eq!(serialized.len(), 16);
    let loaded = load(&serialized).unwrap();
    assert_eq!(loaded.len(), 0);
}

#[test]
fn load_rejects_corrupt_records() {
    // a record whose length prefix is cut off
    let mut truncated_record = Vec::new();
    truncated_record.extend_from_slice(&PACK_FILE_MAGIC.to_le_bytes());
    truncated_record.extend_from_slice(&PACK_FILE_VERSION.to_le_bytes());
    truncated_record.push(0xff);
    assert_eq!(load(&truncated_record).unwrap_err(), LoadError::Corrupt);

    // a path length pointing past the end of the buffer
    let mut oversize_length = Vec::new();
    oversize_length.extend_from_slice(&PACK_FILE_MAGIC.to_le_bytes());
    oversize_length.extend_from_slice(&PACK_FILE_VERSION.to_le_bytes());
    oversize_length.extend_from_slice(&1000u16.to_le_bytes());
    oversize_length.push(b'x');
    assert_eq!(load(&oversize_length).unwrap_err(), LoadError::Corrupt);

    // a path that is not UTF-8
    let mut bad_utf8 = Vec::new();
    bad_utf8.extend_from_slice(&PACK_FILE_MAGIC.to_le_bytes());
    bad_utf8.extend_from_slice(&PACK_FILE_VERSION.to_le_bytes());
    bad_utf8.extend_from_slice(&1u16.to_le_bytes());
    bad_utf8.push(0xff);
    assert_eq!(load(&bad_utf8).unwrap_err(), LoadError::Corrupt);
}

#[test]
fn load_rejects_duplicate_paths() {
    let mut builder = Builder::new();
    builder.file_pack_path_add(entry("/same", plain_file(b"data"))).unwrap();
    let pack = builder.finalize();
    let serialized = store_memory(&pack).unwrap();

    // append a second copy of the one record
    let mut duplicated = serialized.clone();
    duplicated.extend_from_slice(&serialized[16..]);
    assert_eq!(load(&duplicated).unwrap_err(), LoadError::Corrupt);
}

#[test]
fn store_rejects_oversize_path() {
    let long_path = "a".repeat(70000);
    let mut builder = Builder::new();
    builder.file_pack_path_add(entry(&long_path, plain_file(b"data"))).unwrap();
    let pack = builder.finalize();
    assert_eq!(store_memory(&pack).unwrap_err(), StoreError::EntryTooLarge);
}

#[test]
fn pack_path_from_components_joins_with_slashes() {
    assert_eq!(
        from_components(&vec!["somefile".to_owned()]).as_str(),
        "/somefile"
    );
    assert_eq!(
        from_components(&vec![
            "linux".to_owned(),
            "like".to_owned(),
            "relative".to_owned(),
            "path.html".to_owned(),
        ])
        .as_str(),
        "/linux/like/relative/path.html"
    );
    assert_eq!(from_components(&Vec::new()).as_str(), "");
}

#[test]
fn pack_path_wraps_string() {
    let path = PackPath::from_string("/index.html".to_owned());
    assert_eq!(path.as_str(), "/index.html");
    assert_eq!(path.clone_path().as_str(), "/index.html");
}
