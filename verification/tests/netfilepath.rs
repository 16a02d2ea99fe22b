use backend::fs::netfilepath::NetFilePath;

#[test]
fn test_netfilepath() {
    let mut nfp = NetFilePath::from_path("/folder1/test");
    assert_eq!(nfp.as_str(), "/folder1/test");
    nfp.add_prefix("\\User1\\");
    assert_eq!(nfp.as_str(), "/User1/folder1/test");
}

#[test]
fn add_prefix_adds_missing_separator() {
    let mut nfp = NetFilePath::from_path("a/b");
    nfp.add_prefix("shared");
    assert_eq!(nfp.as_str(), "shared/a/b");
}

#[test]
fn add_prefix_keeps_single_separator() {
    let mut nfp = NetFilePath::from_path("a");
    nfp.add_prefix("base/");
    assert_eq!(nfp.as_str(), "base/a");
    let mut empty = NetFilePath::from_path("");
    empty.add_prefix("base");
    assert_eq!(empty.as_str(), "base");
}

#[test]
fn form_value_is_percent_decoded() {
    let p = NetFilePath::from_form_value("%2Ffolder%201/file.txt").unwrap();
    assert_eq!(p.as_str(), "folder 1/file.txt");
}

#[test]
fn form_value_with_parent_ref_is_refused() {
    assert!(NetFilePath::from_form_value("a/../b").is_err());
    assert!(NetFilePath::from_form_value("a/%2E%2E/b").is_err());
}

#[test]
fn form_value_with_invalid_utf8_is_refused() {
    assert!(NetFilePath::from_form_value("%FF").is_err());
}

#[test]
fn form_value_keeps_bad_percent_sequences() {
    let p = NetFilePath::from_form_value("100%zz").unwrap();
    assert_eq!(p.as_str(), "100%zz");
}

#[test]
fn decoded_value_backslashes_become_slashes() {
    let p = NetFilePath::from_decoded("dir\\file").unwrap();
    assert_eq!(p.as_str(), "dir/file");
    let q = NetFilePath::from_decoded("/only/one/leading").unwrap();
    assert_eq!(q.as_str(), "only/one/leading");
}

#[test]
fn absolute_query_paths_are_refused() {
    assert!(NetFilePath::from_decoded("//etc/passwd").is_err());
    assert!(NetFilePath::from_decoded("/\\etc").is_err());
    assert!(NetFilePath::from_decoded("\\etc").is_err());
    assert!(NetFilePath::from_form_value("%2F%2Fetc").is_err());
    assert!(NetFilePath::from_form_value("%5Cetc").is_err());
    assert_eq!(NetFilePath::from_decoded("/").unwrap().as_str(), "");
    assert_eq!(NetFilePath::from_decoded("a//b").unwrap().as_str(), "a//b");
}
