use oxide_explorer::listing::{
    extension_text, guess_content_type, guess_icon, listing_from, make_entry, sort_entries, DirEntry, EntryFacts,
    RawEntry,
};

fn raw(name: &str, facts: Option<(bool, u64, i64)>) -> RawEntry {
    RawEntry {
        name: name.to_string(),
        path: format!("/d/{name}"),
        facts: facts.map(|(is_dir, len, modified)| EntryFacts { is_dir, len, modified }),
    }
}

#[test]
fn icons_and_types_by_extension() {
    assert_eq!(guess_icon("photo.PNG"), "image-x-generic-symbolic");
    assert_eq!(guess_icon("movie.mkv"), "video-x-generic-symbolic");
    assert_eq!(guess_icon("song.flac"), "audio-x-generic-symbolic");
    assert_eq!(guess_icon("paper.pdf"), "x-office-document-symbolic");
    assert_eq!(guess_icon("backup.tar.gz"), "package-x-generic-symbolic");
    assert_eq!(guess_icon("main.rs"), "text-x-generic-symbolic");
    assert_eq!(guess_icon("README"), "text-x-generic-symbolic");
    assert_eq!(guess_content_type("notes.TXT"), "text/plain");
    assert_eq!(guess_content_type("a.jpeg"), "image/jpeg");
    assert_eq!(guess_content_type("lib.rs"), "text/x-rust");
    assert_eq!(guess_content_type("x.unknown"), "application/octet-stream");
    assert_eq!(extension_text("a.b.c"), "c");
    assert_eq!(extension_text("plain"), "plain");
    assert_eq!(extension_text("trailing."), "");
}

#[test]
fn entries_from_metadata() {
    let f = make_entry("a.py".into(), "/d/a.py".into(), &EntryFacts { is_dir: false, len: 12, modified: 7 });
    assert_eq!(f.size, 12);
    assert_eq!(f.icon_name, "text-x-generic-symbolic");
    assert_eq!(f.content_type, "text/x-python");
    let d = make_entry("src".into(), "/d/src".into(), &EntryFacts { is_dir: true, len: 4096, modified: 1 });
    assert_eq!(d.size, 0);
    assert_eq!(d.icon_name, "folder");
    assert_eq!(d.content_type, "inode/directory");
}

#[test]
fn listing_puts_directories_first_then_names_without_case() {
    let entries = listing_from(vec![
        raw("b.txt", Some((false, 1, 0))),
        raw("Zdir", Some((true, 0, 0))),
        raw("A.txt", Some((false, 2, 0))),
        raw("broken", None),
        raw("adir", Some((true, 0, 0))),
    ]);
    let names: Vec<&str> = entries.iter().map(|e| e.name.as_str()).collect();
    assert_eq!(names, vec!["adir", "Zdir", "A.txt", "b.txt"]);
}

#[test]
fn sorting_is_stable_for_equal_names() {
    let mk = |name: &str, path: &str| DirEntry {
        name: name.into(),
        path: path.into(),
        size: 0,
        modified: 0,
        is_dir: false,
        icon_name: String::new(),
        content_type: String::new(),
    };
    let sorted = sort_entries(vec![mk("X", "/1"), mk("x", "/2"), mk("a", "/3")]);
    let paths: Vec<&str> = sorted.iter().map(|e| e.path.as_str()).collect();
    assert_eq!(paths, vec!["/3", "/1", "/2"]);
}
