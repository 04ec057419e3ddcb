use oxide_explorer::preview::{info_text, is_text_file, preview_kind, preview_text, PreviewKind, PREVIEW_CHARS};

#[test]
fn text_files_by_type_or_extension() {
    assert!(is_text_file("application/json", "/x/file"));
    assert!(is_text_file("application/x-ruby; charset=utf8", "/x/file"));
    assert!(is_text_file("application/octet-stream", "/x/Main.RS"));
    assert!(is_text_file("application/octet-stream", "/x/notes.Md"));
    assert!(!is_text_file("application/octet-stream", "/x/a.bin"));
    assert!(!is_text_file("application/octet-stream", "/x/Makefile"));
}

#[test]
fn preview_kinds() {
    assert_eq!(preview_kind("image/png", "/a.png"), PreviewKind::Image);
    assert_eq!(preview_kind("text/plain", "/a"), PreviewKind::Text);
    assert_eq!(preview_kind("application/x-shellscript", "/run"), PreviewKind::Text);
    assert_eq!(preview_kind("application/pdf", "/a.pdf"), PreviewKind::Info);
}

#[test]
fn preview_text_is_cut_by_characters() {
    let long: String = "é".repeat(6000);
    let shown = preview_text(&long);
    assert_eq!(shown.chars().count(), PREVIEW_CHARS);
    assert_eq!(preview_text("short"), "short");
}

#[test]
fn info_summary() {
    assert_eq!(
        info_text("PNG image", Some(2048), Some("2024-01-01 10:00")),
        "Type: PNG image\nSize: 2.0 KB\nModified: 2024-01-01 10:00\n"
    );
    assert_eq!(info_text("Folder", None, None), "Type: Folder\n");
}
