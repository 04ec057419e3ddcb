use oxide_explorer::panes::{content_page, empty_folder_page, error_page, toggled_view, Side};

#[test]
fn switching_panes() {
    assert_eq!(Side::Left.other(), Side::Right);
    assert_eq!(Side::Right.other(), Side::Left);
    assert_eq!(Side::Left.other().other(), Side::Left);
}

#[test]
fn switching_views() {
    assert_eq!(toggled_view(Some("icon")), ("details", true));
    assert_eq!(toggled_view(Some("details")), ("icon", false));
    assert_eq!(toggled_view(None), ("icon", false));
}

#[test]
fn content_pages() {
    assert_eq!(content_page(0), "empty");
    assert_eq!(content_page(3), "content");
    assert_eq!(empty_folder_page(), ("folder-symbolic", "Folder is Empty", "This directory contains no files."));
    assert_eq!(error_page(), ("dialog-error-symbolic", "Cannot Open Folder"));
}
