use oxide_explorer::fileops::{
    access_line, cd_command, copy_destination, move_pending, move_step, octal_text, owner_line, reach_of,
    shell_escape, size_line, total_size, MoveStage, Reach,
};

fn run_move(rename_ok: bool, copy_ok: bool, delete_ok: bool) -> (MoveStage, Vec<MoveStage>) {
    let mut stage = MoveStage::Renaming;
    let mut seen = vec![stage];
    while move_pending(stage) {
        let ok = match stage {
            MoveStage::Renaming => rename_ok,
            MoveStage::Copying => copy_ok,
            _ => delete_ok,
        };
        stage = move_step(stage, ok);
        seen.push(stage);
    }
    (stage, seen)
}

#[test]
fn a_move_renames_or_copies_then_deletes() {
    assert_eq!(run_move(true, false, false).0, MoveStage::Done);
    let (end, seen) = run_move(false, true, true);
    assert_eq!(end, MoveStage::Done);
    assert_eq!(seen, vec![MoveStage::Renaming, MoveStage::Copying, MoveStage::Deleting, MoveStage::Done]);
    let (end, seen) = run_move(false, false, true);
    assert_eq!(end, MoveStage::Failed);
    assert!(!seen.contains(&MoveStage::Deleting));
    assert_eq!(run_move(false, true, false).0, MoveStage::Failed);
}

#[test]
fn copies_and_removals() {
    assert_eq!(reach_of(true), Reach::Tree);
    assert_eq!(reach_of(false), Reach::Single);
    assert_eq!(copy_destination("/dst", "a.txt"), "/dst/a.txt");
    assert_eq!(total_size(&vec![1, 2, 3]), 6);
    assert_eq!(total_size(&vec![]), 0);
}

#[test]
fn properties_lines() {
    assert_eq!(size_line(2048), "2.0 KB (2048 bytes)");
    assert_eq!(size_line(5), "5 B (5 bytes)");
    assert_eq!(octal_text(0o755), "755");
    assert_eq!(octal_text(0), "0");
    assert_eq!(octal_text(u32::MAX), format!("{:o}", u32::MAX));
    assert_eq!(access_line(0o100644), "-rw-r--r-- (644)");
    assert_eq!(access_line(0o40755), "drwxr-xr-x (755)");
    assert_eq!(access_line(0o104755), "-rwxr-xr-x (4755)");
    assert_eq!(owner_line(Some("bob"), 1000, None, 100), "bob:100");
    assert_eq!(owner_line(None, 0, Some("wheel"), 0), "0:wheel");
}

#[test]
fn shell_quoting() {
    assert_eq!(shell_escape("/tmp/it's"), "'/tmp/it'\\''s'");
    assert_eq!(shell_escape("/plain"), "'/plain'");
    assert_eq!(cd_command("/x y"), "cd '/x y' && clear\n");
}
