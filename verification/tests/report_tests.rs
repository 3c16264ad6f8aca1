use nuwax_upload::config::{UploadConfig, UploadItem};
use nuwax_upload::report::{download_url, download_urls, file_label, prefix_url, total_bytes};
use nuwax_upload::text::decimal_string;

fn item(key: &str, size: u64) -> UploadItem {
    UploadItem { local_path: key.as_bytes().to_vec(), remote_key: key.to_string(), size }
}

fn config(items: Vec<UploadItem>) -> UploadConfig {
    UploadConfig {
        endpoint: "https://s3.nuwax.com:9443/".to_string(),
        bucket: "nuwax-packages".to_string(),
        access_key: "a".to_string(),
        secret_key: "s".to_string(),
        region: "us-east-1".to_string(),
        prefix: "docker/20240101000000".to_string(),
        timeout: None,
        concurrency: 3,
        items,
    }
}

#[test]
fn label_counts_from_one_and_shows_file_name() {
    assert_eq!(file_label(0, 3, "docker/x/sub/b.txt"), "[1/3] b.txt");
    assert_eq!(file_label(9, 10, "plain"), "[10/10] plain");
    assert_eq!(file_label(0, 1, "ends/"), "[1/1] ");
}

#[test]
fn urls_drop_trailing_slashes_of_endpoint() {
    assert_eq!(
        download_url("https://h:9443//", "b", "p/k.zip"),
        "https://h:9443/b/p/k.zip"
    );
    let c = config(vec![item("docker/20240101000000/a.zip", 1), item("docker/20240101000000/d/b", 2)]);
    assert_eq!(
        download_urls(&c),
        vec![
            "https://s3.nuwax.com:9443/nuwax-packages/docker/20240101000000/a.zip".to_string(),
            "https://s3.nuwax.com:9443/nuwax-packages/docker/20240101000000/d/b".to_string(),
        ]
    );
    assert_eq!(prefix_url(&c), "https://s3.nuwax.com:9443/nuwax-packages/docker/20240101000000");
}

#[test]
fn every_url_lies_below_the_prefix_url() {
    let c = config(vec![item("docker/20240101000000/a.zip", 1), item("docker/20240101000000/d/b", 2)]);
    let base = prefix_url(&c);
    for url in download_urls(&c) {
        assert!(url.starts_with(&format!("{}/", base)));
    }
}

#[test]
fn total_bytes_sums_or_reports_overflow() {
    assert_eq!(total_bytes(&vec![item("a", 1), item("b", 2), item("c", 3)]), Some(6));
    assert_eq!(total_bytes(&vec![]), Some(0));
    assert_eq!(total_bytes(&vec![item("a", u64::MAX), item("b", 1)]), None);
}

#[test]
fn decimal_numerals() {
    assert_eq!(decimal_string(0), "0");
    assert_eq!(decimal_string(7), "7");
    assert_eq!(decimal_string(1200), "1200");
    assert_eq!(decimal_string(u64::MAX), u64::MAX.to_string());
}
