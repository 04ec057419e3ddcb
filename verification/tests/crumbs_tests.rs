use oxide_explorer::crumbs::{breadcrumbs, column_paths, path_components};
use std::path::{Component, Path, PathBuf};

fn std_components(p: &str) -> Vec<String> {
    Path::new(p)
        .components()
        .map(|c| match c {
            Component::RootDir => "/".to_string(),
            Component::CurDir => ".".to_string(),
            Component::ParentDir => "..".to_string(),
            Component::Normal(n) => n.to_string_lossy().into_owned(),
            Component::Prefix(_) => unreachable!(),
        })
        .collect()
}

const SAMPLES: [&str; 12] = [
    "/home//u/./x/", "./a/../b", "a/b", "", "/", ".", "..", "//a", "a/./.", "/a/..", "./", "x//y/",
];

#[test]
fn components_agree_with_std() {
    for p in SAMPLES {
        assert_eq!(path_components(p), std_components(p), "path {p:?}");
    }
}

#[test]
fn components_examples() {
    assert_eq!(path_components("/home//u/./x/"), vec!["/", "home", "u", "x"]);
    assert_eq!(path_components("./a/../b"), vec![".", "a", "..", "b"]);
}

#[test]
fn breadcrumbs_of_a_directory() {
    let c = breadcrumbs("/home/user/docs");
    let want: Vec<(String, String)> = vec![
        ("home".into(), "/home".into()),
        ("user".into(), "/home/user".into()),
        ("docs".into(), "/home/user/docs".into()),
    ];
    assert_eq!(c, want);
    assert!(breadcrumbs("/").is_empty());
    let skipped: Vec<(String, String)> = vec![("a".into(), "/a".into()), ("b".into(), "/a/b".into())];
    assert_eq!(breadcrumbs("/a/../b"), skipped);
}

#[test]
fn breadcrumbs_agree_with_pathbuf_push() {
    for p in SAMPLES {
        let mut acc = PathBuf::from("/");
        let mut want = Vec::new();
        for c in Path::new(p).components() {
            if let Component::Normal(n) = c {
                acc.push(n);
                want.push((n.to_string_lossy().into_owned(), acc.to_string_lossy().into_owned()));
            }
        }
        assert_eq!(breadcrumbs(p), want, "path {p:?}");
    }
}

#[test]
fn columns_agree_with_pathbuf_push() {
    assert_eq!(column_paths("/home/u"), vec!["/", "/home", "/home/u"]);
    for p in SAMPLES {
        let mut acc = PathBuf::new();
        let mut want = Vec::new();
        for c in Path::new(p).components() {
            acc.push(c);
            want.push(acc.to_string_lossy().into_owned());
        }
        assert_eq!(column_paths(p), want, "path {p:?}");
    }
}
