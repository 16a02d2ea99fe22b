use backend::fs::path::{components_of, file_name_of, name_extension_of, push_path, strip_base, BaseRelation};
use std::path::{Path, PathBuf};

fn chars(s: &str) -> Vec<char> {
    s.chars().collect()
}

fn text(cs: &[char]) -> String {
    cs.iter().collect()
}

const SAMPLES: [&str; 16] = [
    "", "/", "a", "a/b", "/a/b", "a//b/", "./a", ".", "./", "a/./b", "../x", "/..",
    "a/..", "//x//y", "dir/file.tar.gz", ".hidden",
];

#[test]
fn components_agree_with_std_path() {
    for s in SAMPLES {
        let ours: Vec<String> = components_of(&chars(s)).iter().map(|c| text(c)).collect();
        let std: Vec<String> =
            Path::new(s).components().map(|c| c.as_os_str().to_string_lossy().into_owned()).collect();
        assert_eq!(ours, std, "components of {:?}", s);
    }
}

#[test]
fn file_name_and_extension_agree_with_std_path() {
    for s in SAMPLES {
        let ours = file_name_of(&chars(s)).map(|n| text(&n));
        let std = Path::new(s).file_name().map(|n| n.to_string_lossy().into_owned());
        assert_eq!(ours, std, "file name of {:?}", s);
        let ours_ext = ours.as_ref().and_then(|n| name_extension_of(&chars(n)).map(|e| text(&e)));
        let std_ext = Path::new(s).extension().map(|e| e.to_string_lossy().into_owned());
        assert_eq!(ours_ext, std_ext, "extension of {:?}", s);
    }
}

#[test]
fn push_agrees_with_std_pathbuf() {
    let bases = ["", "/", "data", "data/", "/srv/data"];
    let parts = ["", "x", "x/y", "/abs", "./rel"];
    for b in bases {
        for p in parts {
            let mut ours = b.to_string();
            push_path(&mut ours, p);
            let mut std = PathBuf::from(b);
            std.push(p);
            assert_eq!(ours, std.to_string_lossy(), "push {:?} onto {:?}", p, b);
        }
    }
}

#[test]
fn strip_base_cases() {
    match strip_base("/data/user1/docs/a.txt", "/data/user1") {
        BaseRelation::Below(rest) => assert_eq!(rest, vec!["docs".to_string(), "a.txt".to_string()]),
        _ => panic!("expected the folder below the base"),
    }
    match strip_base("/data/user1", "/data/user1") {
        BaseRelation::Below(rest) => assert!(rest.is_empty()),
        _ => panic!("expected an empty rest"),
    }
    assert!(matches!(strip_base("/data", "/data/user1"), BaseRelation::Shorter));
    assert!(matches!(strip_base("/data/user2/x", "/data/user1"), BaseRelation::Mismatch));
}
