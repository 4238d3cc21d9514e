use nano_rust::xrootd::{check_read_length, single_read_size, url_has_nul, xrootd_failure_message, Source};

#[test]
fn xrootd_source_rejects_non_xrootd_urls_before_opening_a_connection() {
    let error = Source::xrootd("https://example.invalid/input.root").expect_err("invalid scheme");
    assert!(
        error.message().contains("requires root:// or roots:// URL"),
        "unexpected error: {}",
        error.message()
    );
}

#[test]
fn xrootd_source_accepts_root_and_roots_urls() {
    assert_eq!(
        Source::xrootd("root://eos.cern.ch//store/a.root"),
        Ok(Source::Xrootd { url: "root://eos.cern.ch//store/a.root".to_string() })
    );
    assert!(Source::xrootd("roots://host//f.root").is_ok());
    assert!(Source::xrootd("root:/host").is_err());
    assert_eq!(
        Source::xrootd("file.root").unwrap_err().message(),
        "XRootD ROOT source: requires root:// or roots:// URL"
    );
}

#[test]
fn xrootd_messages_and_checks() {
    assert_eq!(xrootd_failure_message("open", ""), "XRootD open failed");
    assert_eq!(xrootd_failure_message("read", "timeout"), "XRootD read failed: timeout");
    assert_eq!(single_read_size(17), Ok(17));
    assert_eq!(
        single_read_size(1u64 << 32),
        Err("read length 4294967296 exceeds the XRootD single-read limit".to_string())
    );
    assert_eq!(check_read_length(5, 10, 10), Ok(()));
    assert_eq!(
        check_read_length(5, 10, 3),
        Err("short read at offset 5: requested 10 bytes, received 3".to_string())
    );
    assert!(url_has_nul("root://a/\0b"));
    assert!(!url_has_nul("root://a/b"));
}
