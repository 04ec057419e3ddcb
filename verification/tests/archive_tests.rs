use oxide_explorer::archive::{compress_question, extract_question};
use oxide_explorer::archive::{
    command_result, compress_command, default_archive_name, default_extract_dest, extract_command, is_archive,
    parent_or_root_of,
};

#[test]
fn archives_by_ending() {
    assert!(is_archive("/x/A.TAR.GZ"));
    assert!(is_archive("/x/a.7z"));
    assert!(is_archive("/x/a.tbz2") == false);
    assert!(!is_archive("/x/a.txt"));
}

#[test]
fn extraction_commands() {
    let c = extract_command("/x/a.zip", "/x/a").unwrap();
    assert_eq!(c.program, "unzip");
    assert_eq!(c.args, vec!["-o", "/x/a.zip", "-d", "/x/a"]);
    assert_eq!(c.cwd, None);
    let c = extract_command("/x/B.TGZ", "/out").unwrap();
    assert_eq!(c.program, "tar");
    assert_eq!(c.args, vec!["xzf", "/x/B.TGZ", "-C", "/out"]);
    let c = extract_command("/x/a.tbz2", "/out").unwrap();
    assert_eq!(c.args[0], "xjf");
    let c = extract_command("/x/a.7z", "/out").unwrap();
    assert_eq!(c.program, "7z");
    assert_eq!(c.args, vec!["x", "/x/a.7z", "-o/out"]);
    let c = extract_command("/x/a.rar", "/out").unwrap();
    assert_eq!(c.args, vec!["x", "/x/a.rar", "/out"]);
    assert_eq!(extract_command("/x/A.DOC", "/out").err().as_deref(), Some("Unsupported archive format: /x/a.doc"));
}

#[test]
fn compression_commands() {
    let files = vec!["/d/a".to_string(), "/d/b.txt".to_string()];
    let c = compress_command(&files, "/d/out.zip");
    assert_eq!(c.program, "zip");
    assert_eq!(c.args, vec!["-r", "/d/out.zip", "a", "b.txt"]);
    assert_eq!(c.cwd.as_deref(), Some("/d"));
    assert_eq!(compress_command(&files, "/d/o.tar.xz").args[0], "cJf");
    assert_eq!(compress_command(&files, "/d/o.tgz").args[0], "czf");
    assert_eq!(compress_command(&files, "/d/o.tar.bz2").args[0], "cf");
    assert_eq!(compress_command(&vec!["/".to_string()], "/o.tar").cwd.as_deref(), Some("/"));
}

#[test]
fn proposed_names() {
    assert_eq!(default_archive_name(&vec!["/d/a.txt".to_string()]), "a.txt.tar.gz");
    assert_eq!(default_archive_name(&vec!["/d/a".to_string(), "/d/b".to_string()]), "archive.tar.gz");
    assert_eq!(default_extract_dest("/d/x.tar.gz"), "/d/x.tar");
    assert_eq!(default_extract_dest("/d/pics.zip"), "/d/pics");
    assert_eq!(parent_or_root_of("/"), "/");
    assert_eq!(parent_or_root_of("/a/b"), "/a");
}

#[test]
fn command_outcomes() {
    assert_eq!(command_result("tar", Some("No such file"), false, &Vec::new()), Err("tar: No such file".to_string()));
    assert_eq!(command_result("tar", None, true, &b"warn".to_vec()), Ok(()));
    assert_eq!(command_result("zip", None, false, &b"bad input".to_vec()), Err("bad input".to_string()));
}

#[test]
fn dialog_questions() {
    assert_eq!(extract_question("/d/pics.zip"), "Extract \"pics.zip\" to:");
    assert_eq!(compress_question(3), "Compress 3 item(s):");
}

#[test]
fn every_archive_can_be_extracted() {
    for p in ["/a.zip", "/b.TAR.GZ", "/c.tgz", "/d.tar.xz", "/e.txz", "/f.tar.bz2", "/g.tar", "/h.7z", "/i.RAR"] {
        assert!(is_archive(p), "{p}");
        assert!(extract_command(p, "/out").is_ok(), "{p}");
    }
}
