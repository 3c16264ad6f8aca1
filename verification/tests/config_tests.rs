use nuwax_upload::cli::Args;
use nuwax_upload::config::{
    add_path, collect_dir_files, default_prefix, finish_config, require_utf8_filename, resolve,
    resolve_prefix, PathObservation, UploadConfig, UploadItem, WalkEntry, WalkStep,
};
use nuwax_upload::error::UploadError;
use nuwax_upload::text::trim_end_char;

fn args_for(paths: &[&str], prefix: Option<&str>) -> Args {
    Args {
        paths: paths.iter().map(|p| p.as_bytes().to_vec()).collect(),
        prefix: prefix.map(|p| p.to_string()),
        endpoint: "https://s3.example.com".to_string(),
        bucket: "bucket".to_string(),
        access_key: "AK".to_string(),
        secret_key: "SK".to_string(),
        region: "us-east-1".to_string(),
        timeout: Some(600),
        concurrency: 3,
    }
}

fn file_entry(path: &str, size: u64) -> WalkStep {
    WalkStep::Entry(WalkEntry { path: path.as_bytes().to_vec(), is_file: true, size: Ok(size) })
}

fn dir_entry(path: &str) -> WalkStep {
    WalkStep::Entry(WalkEntry {
        path: path.as_bytes().to_vec(),
        is_file: false,
        size: Ok(4096),
    })
}

fn keys(items: &[UploadItem]) -> Vec<&str> {
    items.iter().map(|i| i.remote_key.as_str()).collect()
}

#[test]
fn test_default_prefix_format() {
    let prefix = resolve_prefix(&None).unwrap();
    assert!(prefix.starts_with("docker/"));
    assert_eq!(prefix.len(), "docker/".len() + 14);
}

#[test]
fn test_prefix_trailing_slash_trimmed() {
    let input = "releases/v1.0/".to_string();
    let trimmed = trim_end_char(&input, '/');
    assert_eq!(trimmed, "releases/v1.0");
}

#[test]
fn test_collect_dir_preserves_structure() {
    let tmp = "/tmp/nuwax_upload_test_42";
    let walk = vec![
        dir_entry("/tmp/nuwax_upload_test_42/sub"),
        file_entry("/tmp/nuwax_upload_test_42/sub/b.txt", 1),
        file_entry("/tmp/nuwax_upload_test_42/a.txt", 1),
    ];
    let mut items = Vec::new();
    collect_dir_files(tmp.as_bytes(), "pfx", &walk, &mut items).unwrap();

    let keys = keys(&items);
    assert!(keys.contains(&"pfx/a.txt"));
    assert!(keys.contains(&"pfx/sub/b.txt"));

    // All sizes should be > 0
    for item in &items {
        assert!(item.size > 0);
    }
}

#[test]
fn test_debug_redacts_credentials() {
    let config = UploadConfig {
        endpoint: "https://s3.example.com".to_string(),
        bucket: "test".to_string(),
        access_key: "SUPER_SECRET_KEY".to_string(),
        secret_key: "SUPER_SECRET_VALUE".to_string(),
        region: "us-east-1".to_string(),
        prefix: "docker/test".to_string(),
        timeout: None,
        concurrency: 3,
        items: vec![],
    };
    let debug_str = config.debug_string();
    assert!(!debug_str.contains("SUPER_SECRET_KEY"));
    assert!(!debug_str.contains("SUPER_SECRET_VALUE"));
    assert!(debug_str.contains("***"));
}

#[test]
fn debug_string_has_struct_layout() {
    let config = UploadConfig {
        endpoint: "https://s3.example.com".to_string(),
        bucket: "test".to_string(),
        access_key: "A".to_string(),
        secret_key: "B".to_string(),
        region: "us-east-1".to_string(),
        prefix: "docker/test".to_string(),
        timeout: Some(600),
        concurrency: 3,
        items: vec![UploadItem { local_path: b"x".to_vec(), remote_key: "k".to_string(), size: 1 }],
    };
    assert_eq!(
        config.debug_string(),
        "UploadConfig { endpoint: \"https://s3.example.com\", bucket: \"test\", access_key: \"***\", \
         secret_key: \"***\", region: \"us-east-1\", prefix: \"docker/test\", timeout: Some(600s), \
         concurrency: 3, items: 1 }"
    );
}

#[test]
fn debug_string_same_for_other_credentials() {
    let make = |ak: &str, sk: &str| UploadConfig {
        endpoint: "e".to_string(),
        bucket: "b".to_string(),
        access_key: ak.to_string(),
        secret_key: sk.to_string(),
        region: "r".to_string(),
        prefix: "p".to_string(),
        timeout: None,
        concurrency: 1,
        items: vec![],
    };
    assert_eq!(make("one", "two").debug_string(), make("three", "four").debug_string());
}

#[test]
fn given_prefix_loses_trailing_slashes() {
    assert_eq!(resolve_prefix(&Some("releases/v2.0.0///".to_string())).unwrap(), "releases/v2.0.0");
    assert_eq!(resolve_prefix(&Some("plain".to_string())).unwrap(), "plain");
    assert_eq!(resolve_prefix(&Some("///".to_string())).unwrap(), "");
}

#[test]
fn default_prefix_is_docker_and_stamp() {
    assert_eq!(default_prefix("20240102030405"), "docker/20240102030405");
}

#[test]
fn filename_of_file_paths() {
    assert_eq!(require_utf8_filename(b"dir/service.zip").unwrap(), "service.zip");
    assert_eq!(require_utf8_filename(b"./config.json").unwrap(), "config.json");
    assert_eq!(require_utf8_filename(b"a/b/.").unwrap(), "b");
    assert!(matches!(require_utf8_filename(b"a/.."), Err(UploadError::InvalidPath(p)) if p == b"a/..".to_vec()));
    assert!(matches!(require_utf8_filename(b"/"), Err(UploadError::InvalidPath(_))));
    assert!(matches!(require_utf8_filename(b"dir/\xff\xfe"), Err(UploadError::InvalidPath(_))));
}

#[test]
fn resolve_mixes_files_and_directories_in_order() {
    let args = args_for(&["changelog.txt", "./dist/"], Some("releases/v2.0.0/"));
    let observed = vec![
        PathObservation::File { size: Ok(10) },
        PathObservation::Dir {
            walk: vec![
                file_entry("./dist/app.js", 20),
                dir_entry("./dist/css"),
                file_entry("./dist/css/site.css", 30),
            ],
        },
    ];
    let config = resolve(args, observed).unwrap();
    assert_eq!(config.prefix, "releases/v2.0.0");
    assert_eq!(
        keys(&config.items),
        vec![
            "releases/v2.0.0/changelog.txt",
            "releases/v2.0.0/app.js",
            "releases/v2.0.0/css/site.css",
        ]
    );
    assert_eq!(config.items[2].local_path, b"./dist/css/site.css".to_vec());
    assert_eq!(config.items[2].size, 30);
    assert_eq!(config.endpoint, "https://s3.example.com");
    assert_eq!(config.timeout, Some(600));
    assert_eq!(config.concurrency, 3);
}

#[test]
fn resolve_reports_missing_path() {
    let args = args_for(&["a.txt", "missing.txt"], Some("p"));
    let observed = vec![PathObservation::File { size: Ok(1) }, PathObservation::Missing];
    match resolve(args, observed) {
        Err(UploadError::PathNotFound(p)) => assert_eq!(p, b"missing.txt".to_vec()),
        other => panic!("unexpected: {:?}", other.err()),
    }
}

#[test]
fn resolve_stops_at_first_error() {
    let args = args_for(&["special", "missing"], Some("p"));
    let observed = vec![PathObservation::Other, PathObservation::Missing];
    match resolve(args, observed) {
        Err(UploadError::InvalidPath(p)) => assert_eq!(p, b"special".to_vec()),
        other => panic!("unexpected: {:?}", other.err()),
    }
}

#[test]
fn resolve_reports_unreadable_file() {
    let args = args_for(&["a.txt"], Some("p"));
    let observed = vec![PathObservation::File { size: Err("permission denied".to_string()) }];
    match resolve(args, observed) {
        Err(UploadError::PathNotReadable { path, source }) => {
            assert_eq!(path, b"a.txt".to_vec());
            assert_eq!(source, "permission denied");
        }
        other => panic!("unexpected: {:?}", other.err()),
    }
}

#[test]
fn resolve_reports_no_files_for_empty_directory() {
    let args = args_for(&["empty"], Some("p"));
    let observed = vec![PathObservation::Dir { walk: vec![dir_entry("empty/nested")] }];
    assert!(matches!(resolve(args, observed), Err(UploadError::NoFiles)));
}

#[test]
fn walk_failure_names_the_directory() {
    let mut items = Vec::new();
    let walk = vec![file_entry("d/a", 1), WalkStep::Failed("loop".to_string()), file_entry("d/b", 1)];
    match collect_dir_files(b"d", "p", &walk, &mut items) {
        Err(UploadError::DirRead { path, source }) => {
            assert_eq!(path, b"d".to_vec());
            assert_eq!(source, "loop");
        }
        other => panic!("unexpected: {:?}", other),
    }
    assert_eq!(keys(&items), vec!["p/a"]);
}

#[test]
fn walk_entry_size_failure_names_the_entry() {
    let mut items = Vec::new();
    let walk = vec![WalkStep::Entry(WalkEntry {
        path: b"d/x".to_vec(),
        is_file: true,
        size: Err("gone".to_string()),
    })];
    match collect_dir_files(b"d", "p", &walk, &mut items) {
        Err(UploadError::DirRead { path, .. }) => assert_eq!(path, b"d/x".to_vec()),
        other => panic!("unexpected: {:?}", other),
    }
}

#[test]
fn walk_entry_with_non_utf8_path_is_invalid() {
    let mut items = Vec::new();
    let walk = vec![WalkStep::Entry(WalkEntry {
        path: b"d/\xff".to_vec(),
        is_file: true,
        size: Ok(1),
    })];
    match collect_dir_files(b"d", "p", &walk, &mut items) {
        Err(UploadError::InvalidPath(path)) => assert_eq!(path, b"d/\xff".to_vec()),
        other => panic!("unexpected: {:?}", other),
    }
}

#[test]
fn walk_of_directory_given_with_trailing_slash() {
    let mut items = Vec::new();
    let walk = vec![file_entry("dir/a.bin", 5)];
    collect_dir_files(b"dir/", "p", &walk, &mut items).unwrap();
    assert_eq!(keys(&items), vec!["p/a.bin"]);
}

#[test]
fn add_path_then_finish() {
    let mut items = Vec::new();
    add_path(b"one.zip", &PathObservation::File { size: Ok(3) }, "pre", &mut items).unwrap();
    assert_eq!(keys(&items), vec!["pre/one.zip"]);
    let config = finish_config(args_for(&["one.zip"], None), "pre".to_string(), items).unwrap();
    assert_eq!(config.prefix, "pre");
    assert_eq!(config.items.len(), 1);
    assert!(matches!(
        finish_config(args_for(&[], None), "pre".to_string(), Vec::new()),
        Err(UploadError::NoFiles)
    ));
}
