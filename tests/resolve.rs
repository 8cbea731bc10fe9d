use nirb::resolve::{resolve, url_relative};

#[test]
fn parent_reference_is_joined_as_text() {
    assert_eq!(resolve("file:../x", "/a/b"), "file:/a/b/../x");
}

#[test]
fn current_dir_reference_is_joined() {
    assert_eq!(resolve("file:./bin/one", "/p"), "file:/p/./bin/one");
    assert_eq!(resolve("file://./bin/one", "/p"), "file:///p/./bin/one");
}

#[test]
fn remote_url_is_unchanged() {
    assert_eq!(
        resolve("https://example.com/x", "/a/b"),
        "https://example.com/x"
    );
    assert_eq!(url_relative("https://example.com/x", "/a/b"), None);
}

#[test]
fn absolute_file_url_is_unchanged() {
    assert_eq!(resolve("file:/abs/path", "/a/b"), "file:/abs/path");
    assert_eq!(resolve("file:///abs/path", "/a/b"), "file:///abs/path");
    assert_eq!(url_relative("file:/abs/path", "/a/b"), None);
}

#[test]
fn short_input_is_unchanged() {
    for s in ["", "f", "file", "file:", "file:."] {
        assert_eq!(resolve(s, "/a/b"), s);
    }
    assert_eq!(url_relative("f", "/a/b"), None);
}

#[test]
fn scheme_needs_its_colon() {
    assert_eq!(resolve("files../x", "/a"), "files../x");
}

#[test]
fn url_relative_gives_the_rewrite() {
    assert_eq!(
        url_relative("file:../x", "/a/b"),
        Some("file:/a/b/../x".to_string())
    );
}
