use nuwax_upload::config::{UploadConfig, UploadItem};
use nuwax_upload::error::UploadError;
use nuwax_upload::upload::{
    create_bucket, plan_upload, upload_failed, upload_mode, UploadMode, MULTIPART_THRESHOLD,
};

#[test]
fn small_files_are_put_whole() {
    assert_eq!(MULTIPART_THRESHOLD, 5 * 1024 * 1024);
    assert_eq!(upload_mode(0), UploadMode::SinglePut);
    assert_eq!(upload_mode(5 * 1024 * 1024 - 1), UploadMode::SinglePut);
    assert_eq!(upload_mode(5 * 1024 * 1024), UploadMode::Multipart);
    assert_eq!(upload_mode(u64::MAX), UploadMode::Multipart);
}

#[test]
fn plan_detects_type_from_key() {
    let item = UploadItem {
        local_path: b"./dist/app.tar.gz".to_vec(),
        remote_key: "docker/x/app.tar.gz".to_string(),
        size: 8 * 1024 * 1024,
    };
    let plan = plan_upload(&item);
    assert_eq!(plan.content_type, "application/gzip");
    assert_eq!(plan.mode, UploadMode::Multipart);
}

#[test]
fn failed_upload_names_the_key() {
    let item = UploadItem { local_path: b"a".to_vec(), remote_key: "p/a".to_string(), size: 1 };
    match upload_failed(&item, "timeout".to_string()) {
        UploadError::UploadFailed { filename, source } => {
            assert_eq!(filename, "p/a");
            assert_eq!(source, "timeout");
        }
        other => panic!("unexpected: {:?}", other),
    }
}

#[test]
fn bucket_setup_fails_only_with_client_init() {
    let config = UploadConfig {
        endpoint: "https://s3.example.com".to_string(),
        bucket: "test".to_string(),
        access_key: "AK".to_string(),
        secret_key: "SK".to_string(),
        region: "us-east-1".to_string(),
        prefix: "p".to_string(),
        timeout: Some(30),
        concurrency: 3,
        items: vec![],
    };
    match create_bucket(&config) {
        Ok(handle) => {
            assert_eq!(handle.bucket().name(), "test");
            assert!(handle.bucket().is_path_style());
            assert_eq!(handle.bucket().request_timeout(), Some(std::time::Duration::from_secs(30)));
        }
        Err(e) => assert!(matches!(e, UploadError::ClientInit(_))),
    }
}

#[test]
fn bucket_without_configured_timeout_has_none() {
    let config = UploadConfig {
        endpoint: "https://s3.example.com".to_string(),
        bucket: "test".to_string(),
        access_key: "AK".to_string(),
        secret_key: "SK".to_string(),
        region: "us-east-1".to_string(),
        prefix: "p".to_string(),
        timeout: None,
        concurrency: 3,
        items: vec![],
    };
    match create_bucket(&config) {
        Ok(handle) => {
            assert!(handle.bucket().is_path_style());
            assert_eq!(handle.bucket().request_timeout(), None);
        }
        Err(e) => assert!(matches!(e, UploadError::ClientInit(_))),
    }
}
