use nuwax_upload::paths::{file_name, relative_to};

#[test]
fn file_name_follows_path_components() {
    assert_eq!(file_name(b"a/b/c.txt"), Some(b"c.txt".to_vec()));
    assert_eq!(file_name(b"c.txt"), Some(b"c.txt".to_vec()));
    assert_eq!(file_name(b"dir/"), Some(b"dir".to_vec()));
    assert_eq!(file_name(b"dir//"), Some(b"dir".to_vec()));
    assert_eq!(file_name(b"dir/."), Some(b"dir".to_vec()));
    assert_eq!(file_name(b"dir/./"), Some(b"dir".to_vec()));
    assert_eq!(file_name(b"./x"), Some(b"x".to_vec()));
    assert_eq!(file_name(b".hidden"), Some(b".hidden".to_vec()));
    assert_eq!(file_name(b"a/.."), None);
    assert_eq!(file_name(b".."), None);
    assert_eq!(file_name(b"."), None);
    assert_eq!(file_name(b"./"), None);
    assert_eq!(file_name(b"/"), None);
    assert_eq!(file_name(b""), None);
}

#[test]
fn relative_to_undoes_joining() {
    assert_eq!(relative_to(b"base/sub/b.txt", b"base"), Some(b"sub/b.txt".to_vec()));
    assert_eq!(relative_to(b"base/a", b"base/"), Some(b"a".to_vec()));
    assert_eq!(relative_to(b"/a", b"/"), Some(b"a".to_vec()));
    assert_eq!(relative_to(b"./a", b"."), Some(b"a".to_vec()));
    assert_eq!(relative_to(b"a", b""), Some(b"a".to_vec()));
    assert_eq!(relative_to(b"basement/a", b"base"), None);
    assert_eq!(relative_to(b"other/a", b"base"), None);
    assert_eq!(relative_to(b"base", b"base"), None);
}
