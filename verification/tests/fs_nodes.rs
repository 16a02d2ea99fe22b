use backend::auth::UserID;
use backend::fs::metadata::{node_metadata, total_size};
use backend::fs::netfilepath::NetFilePath;
use backend::fs::{
    build_net_node, collect_names, delete_action, DeleteAction, node_path_from_root, to_abs_data_path, user_root, DirEntryInfo,
    EntryKind, NodeContentResponse,
};

fn uid() -> UserID {
    UserID("user0001".to_string())
}

fn entry(name: &str, kind: EntryKind) -> DirEntryInfo {
    DirEntryInfo { name: name.to_string(), kind }
}

#[test]
fn absolute_data_paths() {
    assert_eq!(to_abs_data_path("./data", &uid(), "docs/a.txt"), "./data/user0001/docs/a.txt");
    assert_eq!(to_abs_data_path("./data/", &uid(), ""), "./data/user0001/");
    assert_eq!(user_root("/srv", &uid()), "/srv/user0001");
}

#[test]
fn names_by_kind() {
    let entries = vec![entry("a", EntryKind::Dir), entry("f.txt", EntryKind::File), entry("b", EntryKind::Dir), entry("l", EntryKind::Other)];
    assert_eq!(collect_names(&entries, EntryKind::Dir), vec!["a".to_string(), "b".to_string()]);
    assert_eq!(collect_names(&entries, EntryKind::File), vec!["f.txt".to_string()]);
}

#[test]
fn node_paths_with_and_without_base() {
    let p = NetFilePath::from_path("docs/sub");
    assert_eq!(node_path_from_root(&p, None).unwrap(), vec!["docs".to_string(), "sub".to_string()]);
    assert_eq!(node_path_from_root(&p, Some("docs")).unwrap(), vec!["sub".to_string()]);
    match node_path_from_root(&NetFilePath::from_path("docs"), Some("docs/sub/deeper")) {
        Err(NodeContentResponse::PathNotFound(m)) => assert_eq!(m, "Wrong base_path"),
        other => panic!("unexpected {:?}", other),
    }
    match node_path_from_root(&p, Some("other")) {
        Err(NodeContentResponse::DirError(m)) => assert_eq!(m, "Wrong base_path"),
        other => panic!("unexpected {:?}", other),
    }
}

#[test]
fn metadata_of_files_and_folders() {
    assert_eq!(total_size(&vec![1, 2, 3]), 6);
    let d = node_metadata(true, 4096, &vec![10, 20], 1700000000, Some("share123".to_string()));
    assert_eq!(d.node_type, "folder");
    assert_eq!(d.size, 30);
    assert_eq!(d.last_modified, 1700000000);
    assert_eq!(d.shared, Some("share123".to_string()));
    let f = node_metadata(false, 77, &vec![10], 5, None);
    assert_eq!(f.node_type, "file");
    assert_eq!(f.size, 77);
}

#[test]
fn net_node_answers() {
    let p = NetFilePath::from_path("docs/sub");
    let md = node_metadata(false, 1, &vec![], 0, None);
    match build_net_node(&p, vec![], Some(Err("denied".to_string())), Some(md), uid()) {
        NodeContentResponse::DirError(m) => assert_eq!(m, "denied"),
        other => panic!("unexpected {:?}", other),
    }
    match build_net_node(&p, vec![], None, None, uid()) {
        NodeContentResponse::DirError(m) => assert_eq!(m, "Metadata fetch failed"),
        other => panic!("unexpected {:?}", other),
    }
    let md = node_metadata(true, 0, &vec![5], 0, None);
    let listing = vec![entry("x", EntryKind::Dir), entry("y.txt", EntryKind::File)];
    match build_net_node(&p, vec!["docs".to_string(), "sub".to_string()], Some(Ok(listing)), Some(md), uid()) {
        NodeContentResponse::NodeData(n) => {
            assert_eq!(n.name, "sub");
            assert_eq!(n.children_folder, Some(vec!["x".to_string()]));
            assert_eq!(n.files, Some(vec!["y.txt".to_string()]));
            assert_eq!(n.path_from_root, vec!["docs".to_string(), "sub".to_string()]);
            assert_eq!(n.metadata.size, 5);
            assert_eq!(n.owned_by, uid());
        }
        other => panic!("unexpected {:?}", other),
    }
    let file_md = node_metadata(false, 9, &vec![], 0, None);
    match build_net_node(&NetFilePath::from_path("a.txt"), vec![], None, Some(file_md), uid()) {
        NodeContentResponse::NodeData(n) => {
            assert_eq!(n.name, "a.txt");
            assert!(n.children_folder.is_none() && n.files.is_none());
        }
        other => panic!("unexpected {:?}", other),
    }
}

#[test]
fn shared_paths_list_from_the_share_on() {
    for (base, p) in [("docs", "a/b"), ("docs/", "a"), ("/", "x/y"), (".", "z"), ("docs/sub", "")] {
        let mut path = NetFilePath::from_path(p);
        path.add_prefix(base);
        let expected: Vec<String> = std::path::Path::new(p)
            .components()
            .map(|c| c.as_os_str().to_string_lossy().into_owned())
            .collect();
        assert_eq!(node_path_from_root(&path, Some(base)).unwrap(), expected, "{:?} under {:?}", p, base);
    }
}

#[test]
fn delete_actions() {
    assert_eq!(delete_action(false, false), DeleteAction::Refuse);
    assert_eq!(delete_action(true, true), DeleteAction::RemoveFile);
    assert_eq!(delete_action(true, false), DeleteAction::RemoveDir);
}
