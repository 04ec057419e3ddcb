use oxide_explorer::rename::{compute_new_name, rename_plan, rename_preview, RenameParams};

fn params(mode: u32) -> RenameParams {
    RenameParams {
        mode,
        find: String::new(),
        replace: String::new(),
        prefix: String::new(),
        suffix: String::new(),
        new_ext: String::new(),
        use_regex: false,
    }
}

#[test]
fn find_and_replace() {
    assert_eq!(compute_new_name("photo.jpg", 0, "photo", "img", "", "", 0, "", false), "img.jpg");
    assert_eq!(compute_new_name("a-a-a", 0, "a", "bb", "", "", 0, "", false), "bb-bb-bb");
    assert_eq!(compute_new_name("same", 0, "", "x", "", "", 0, "", false), "same");
    assert_eq!(compute_new_name("IMG_1234.jpg", 0, r"IMG_(\d+)", "pic-$1", "", "", 0, "", true), "pic-1234.jpg");
    assert_eq!(compute_new_name("a.b.c", 0, ".", "_", "", "", 0, "", true), "_____");
    assert_eq!(compute_new_name("keep(me)", 0, "(", "x", "", "", 0, "", true), "keep(me)");
}

#[test]
fn prefix_suffix_numbering_and_extension() {
    assert_eq!(compute_new_name("a.txt", 1, "", "", "new_", "_x", 0, "", false), "new_a.txt_x");
    assert_eq!(compute_new_name("a.txt", 2, "", "", "", "", 7, "", false), "a_007.txt");
    assert_eq!(compute_new_name("a.txt", 2, "", "", "IMG", "", 7, "", false), "IMG007.txt");
    assert_eq!(compute_new_name("a.txt", 2, "", "", "", "", 1234, "", false), "a_1234.txt");
    assert_eq!(compute_new_name(".bashrc", 2, "", "", "", "", 3, "", false), ".bashrc_003");
    assert_eq!(compute_new_name("a.txt", 3, "", "", "", "", 0, "md", false), "a.md");
    assert_eq!(compute_new_name("a.txt", 3, "", "", "", "", 0, ".md", false), "a.md");
    assert_eq!(compute_new_name("a.tar.gz", 3, "", "", "", "", 0, "", false), "a.tar");
    assert_eq!(compute_new_name("a.txt", 9, "", "", "x", "y", 0, "z", false), "a.txt");
}

#[test]
fn a_batch_renames_files_that_change() {
    let files = vec!["/d/a.txt".to_string(), "/d/b.txt".to_string()];
    let plan = rename_plan(&files, &params(2), 1);
    assert_eq!(
        plan,
        vec![
            ("/d/a.txt".to_string(), "/d/a_001.txt".to_string()),
            ("/d/b.txt".to_string(), "/d/b_002.txt".to_string())
        ]
    );
    let mut keep = params(0);
    keep.find = "zzz".into();
    keep.replace = "y".into();
    assert!(rename_plan(&files, &keep, 1).is_empty());
}

#[test]
fn the_preview_shows_twenty_files() {
    let files: Vec<String> = (0..25).map(|i| format!("/d/f{i}.txt")).collect();
    let rows = rename_preview(&files, &params(2), 1);
    assert_eq!(rows.len(), 20);
    assert_eq!(rows[0], ("f0.txt".to_string(), "f0_001.txt".to_string()));
    assert_eq!(rows[19], ("f19.txt".to_string(), "f19_020.txt".to_string()));
}

#[test]
fn the_preview_shows_what_renaming_does() {
    let files = vec!["/d/a.txt".to_string(), "/e/b.md".to_string()];
    let mut p = params(1);
    p.prefix = "x_".into();
    let rows = rename_preview(&files, &p, 1);
    let plan = rename_plan(&files, &p, 1);
    assert_eq!(rows.len(), plan.len());
    for ((name, new_name), (from, to)) in rows.iter().zip(plan.iter()) {
        assert!(from.ends_with(name.as_str()));
        assert!(to.ends_with(&format!("/{new_name}")));
    }
    assert_eq!(plan[1].1, "/e/x_b.md");
}

#[test]
fn stems_and_extensions_follow_std() {
    for name in ["photo.jpg", ".bashrc", "..x", "a.", ".a.", "foo.tar.gz", "plain", "dir/a.b"] {
        let p = std::path::Path::new(name);
        let stem = p.file_stem().map(|s| s.to_string_lossy().into_owned()).unwrap_or_default();
        assert_eq!(compute_new_name(name, 3, "", "", "", "", 0, "", false), stem);
        let ext = p.extension().map(|e| format!(".{}", e.to_string_lossy())).unwrap_or_default();
        assert_eq!(compute_new_name(name, 2, "", "", "", "", 7, "", false), format!("{stem}_007{ext}"));
    }
}
