use oxide_explorer::selection::{clipboard_after_paste, ClipboardOp, ClipboardState};

#[test]
fn pasting_lands_in_the_directory() {
    let c = ClipboardState { operation: ClipboardOp::Copy, paths: vec!["/a/x.txt".into(), "/b/y".into()] };
    assert_eq!(
        c.paste_plan("/dst"),
        vec![("/a/x.txt".to_string(), "/dst/x.txt".to_string()), ("/b/y".to_string(), "/dst/y".to_string())]
    );
    assert!(!c.is_cut());
}

#[test]
fn a_cut_is_pasted_once() {
    let cut = ClipboardState { operation: ClipboardOp::Cut, paths: vec!["/a".into()] };
    assert!(cut.is_cut());
    assert!(clipboard_after_paste(Some(cut)).is_none());
    let copy = ClipboardState { operation: ClipboardOp::Copy, paths: vec!["/a".into()] };
    let kept = clipboard_after_paste(Some(copy)).unwrap();
    assert_eq!(kept.paths, vec!["/a".to_string()]);
    assert!(clipboard_after_paste(None).is_none());
}
