use nuwax_upload::content_type::{content_type_or_default, detect};

#[test]
fn test_common_types() {
    assert_eq!(detect("file.zip"), "application/zip");
    assert_eq!(detect("file.tar"), "application/x-tar");
    assert_eq!(detect("file.tar.gz"), "application/gzip");
    assert_eq!(detect("file.json"), "application/json");
    assert_eq!(detect("file.txt"), "text/plain");
    assert_eq!(detect("file.pdf"), "application/pdf");
    assert_eq!(detect("file.html"), "text/html");
    assert_eq!(detect("file.css"), "text/css");
    assert_eq!(detect("file.png"), "image/png");
    assert_eq!(detect("file.jpg"), "image/jpeg");
    assert_eq!(detect("file.svg"), "image/svg+xml");
    assert_eq!(detect("file.wasm"), "application/wasm");
    assert_eq!(detect("file.xml"), "text/xml");
    assert_eq!(detect("file.unknown"), "application/octet-stream");
    assert_eq!(detect("noext"), "application/octet-stream");
}

#[test]
fn detect_uses_the_extension_of_a_key() {
    assert_eq!(detect("docker/20240101000000/sub/report.pdf"), "application/pdf");
}

#[test]
fn missing_guess_falls_back_to_octet_stream() {
    assert_eq!(content_type_or_default(None), "application/octet-stream");
    assert_eq!(content_type_or_default(Some("text/csv".to_string())), "text/csv");
}
