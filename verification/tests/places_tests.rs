use oxide_explorer::places::{
    connection_uri, mount_icon_name, places_under, remember_connection, row_target, Bookmarks,
};

fn strings(v: &[&str]) -> Vec<String> {
    v.iter().map(|s| s.to_string()).collect()
}

#[test]
fn bookmarks_read_from_file_text() {
    let b = Bookmarks::from_file_text("/home/u/a\n\n/tmp\n");
    assert_eq!(b.paths, strings(&["/home/u/a", "/tmp"]));
    assert_eq!(b.file_text(), "/home/u/a\n/tmp");
}

#[test]
fn adding_a_bookmark_twice_keeps_one() {
    let mut b = Bookmarks::from_file_text("/home/u/a\n/tmp");
    assert!(!b.add_bookmark("/tmp"));
    // the same directory written with a trailing separator is the same path
    assert!(!b.add_bookmark("/tmp/"));
    assert!(b.add_bookmark("/opt"));
    assert_eq!(b.paths, strings(&["/home/u/a", "/tmp", "/opt"]));
    assert!(b.contains("/opt"));
    assert!(b.contains("/home//u/a"));
    assert!(!b.contains("/home"));
}

#[test]
fn removing_a_bookmark_removes_every_copy() {
    let mut b = Bookmarks::from_file_text("/tmp\n/a\n/tmp/\n/b");
    b.remove_bookmark("/tmp");
    assert_eq!(b.paths, strings(&["/a", "/b"]));
    assert!(!b.contains("/tmp"));
    b.remove_bookmark("/nowhere");
    assert_eq!(b.paths, strings(&["/a", "/b"]));
}

#[test]
fn add_then_remove_restores_the_list() {
    let mut b = Bookmarks::from_file_text("/a\n/b");
    assert!(b.add_bookmark("/c"));
    b.remove_bookmark("/c");
    assert_eq!(b.paths, strings(&["/a", "/b"]));
}

#[test]
fn bookmarks_survive_a_save_and_load() {
    let mut b = Bookmarks::from_file_text("");
    assert!(b.add_bookmark("/home/u/Music"));
    assert!(b.add_bookmark("/srv/data"));
    let again = Bookmarks::from_file_text(&b.file_text());
    assert_eq!(again.paths, b.paths);
}

#[test]
fn recent_connections_put_the_latest_first() {
    let recent = strings(&["sftp://a", "sftp://b", "sftp://c"]);
    assert_eq!(
        remember_connection(&recent, "sftp://b"),
        strings(&["sftp://b", "sftp://a", "sftp://c"])
    );
    assert_eq!(
        remember_connection(&recent, "smb://new"),
        strings(&["smb://new", "sftp://a", "sftp://b", "sftp://c"])
    );
}

#[test]
fn recent_connections_keep_ten() {
    let recent: Vec<String> = (0..12).map(|i| format!("sftp://host{i}")).collect();
    let next = remember_connection(&recent, "ftp://x");
    assert_eq!(next.len(), 10);
    assert_eq!(next[0], "ftp://x");
    assert_eq!(next[9], "sftp://host8");
}

#[test]
fn remembering_twice_changes_nothing() {
    let recent = strings(&["a", "b", "a", "c"]);
    let once = remember_connection(&recent, "c");
    assert_eq!(once, strings(&["c", "a", "b", "a"]));
    assert_eq!(remember_connection(&once, "c"), once);
}

#[test]
fn connection_uri_from_the_form() {
    assert_eq!(connection_uri(0, "host", "22", "/data", "bob").as_deref(), Some("sftp://bob@host:22/data"));
    assert_eq!(connection_uri(1, "h", "", "x", "").as_deref(), Some("ftp://h/x"));
    assert_eq!(connection_uri(2, "srv", "", "share", "").as_deref(), Some("smb://srv/share"));
    assert_eq!(connection_uri(3, "cloud", "8080", "", "me").as_deref(), Some("dav://me@cloud:8080"));
    assert_eq!(connection_uri(7, "h", "", "", "").as_deref(), Some("sftp://h"));
    assert_eq!(connection_uri(0, "", "22", "/x", "bob"), None);
}

#[test]
fn mount_icons_prefer_symbolic_names() {
    let names = strings(&["drive-removable-media", "drive-removable-media-symbolic", "x-symbolic"]);
    assert_eq!(mount_icon_name(Some(&names)), "drive-removable-media-symbolic");
    assert_eq!(mount_icon_name(Some(&strings(&["media-optical", "drive"]))), "media-optical");
    assert_eq!(mount_icon_name(Some(&Vec::new())), "drive-harddisk-symbolic");
    assert_eq!(mount_icon_name(None), "drive-harddisk-symbolic");
}

#[test]
fn sidebar_rows_lead_to_their_paths() {
    assert_eq!(row_target(""), None);
    assert_eq!(row_target("trash:///"), None);
    assert_eq!(row_target("/home/u").as_deref(), Some("/home/u"));
}

#[test]
fn standard_places_below_home() {
    let p = places_under("/home/u");
    assert_eq!(p.len(), 7);
    assert_eq!(p[0], ("Home".to_string(), "user-home-symbolic".to_string(), "/home/u".to_string()));
    assert_eq!(
        p[1],
        ("Documents".to_string(), "folder-documents-symbolic".to_string(), "/home/u/Documents".to_string())
    );
    assert_eq!(p[6].2, "/home/u/Videos");
}
