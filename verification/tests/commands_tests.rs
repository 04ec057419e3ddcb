use oxide_explorer::commands::{
    bookmarked_toast, clipboard_toast, failure_toast, help_shortcuts, inverted, new_folder_path,
    plugin_action_names, plugins_reloaded_toast, properties_title, rename_question, rename_target, select_first,
    select_last, select_next, select_prev, selected_paths, tab_title, terminal_candidates, trash_locations,
    trash_prompt, trashed_toast,
};

fn strings(v: &[&str]) -> Vec<String> {
    v.iter().map(|s| s.to_string()).collect()
}

#[test]
fn moving_the_selection() {
    assert_eq!(select_next(&vec![false, true, false]), Some(2));
    assert_eq!(select_next(&vec![false, false, true]), Some(2));
    assert_eq!(select_next(&vec![false, false]), Some(1));
    assert_eq!(select_next(&vec![]), None);
    assert_eq!(select_next(&vec![true, false, true]), Some(1));
    assert_eq!(select_prev(&vec![false, true]), Some(0));
    assert_eq!(select_prev(&vec![false, false, true]), Some(1));
    assert_eq!(select_prev(&vec![true]), Some(0));
    assert_eq!(select_prev(&vec![false, false]), Some(0));
    assert_eq!(select_prev(&vec![]), None);
    assert_eq!(select_first(0), None);
    assert_eq!(select_first(4), Some(0));
    assert_eq!(select_last(3), Some(2));
    assert_eq!(select_last(0), None);
}

#[test]
fn inverting_and_picking_the_selection() {
    assert_eq!(inverted(&vec![true, false, false]), vec![false, true, true]);
    let items = strings(&["/a", "/b", "/c"]);
    assert_eq!(selected_paths(&items, &vec![true, false, true]), strings(&["/a", "/c"]));
    assert_eq!(selected_paths(&items, &vec![false, false, false]), Vec::<String>::new());
}

#[test]
fn trash_messages() {
    assert_eq!(trash_prompt(&strings(&["/a/b.txt"])), "Move \"b.txt\" to trash?");
    assert_eq!(trash_prompt(&strings(&["/a", "/b"])), "Move 2 items to trash?");
    assert_eq!(trashed_toast(1), "Moved 1 item to Trash");
    assert_eq!(trashed_toast(3), "Moved 3 items to Trash");
    assert_eq!(
        trash_locations("/home/u/.local/share", "f.txt"),
        (
            "/home/u/.local/share/Trash/files/f.txt".to_string(),
            "/home/u/.local/share/Trash/info/f.txt.trashinfo".to_string()
        )
    );
}

#[test]
fn other_messages() {
    assert_eq!(clipboard_toast(2, false), "2 item(s) copied");
    assert_eq!(clipboard_toast(1, true), "1 item(s) cut");
    assert_eq!(bookmarked_toast("/home/u/Docs"), "Bookmarked \"Docs\"");
    assert_eq!(failure_toast("Paste failed", "boom"), "Paste failed: boom");
    assert_eq!(plugins_reloaded_toast(3), "Plugins reloaded (3 actions)");
    assert_eq!(properties_title("/x/report.pdf"), "report.pdf \u{2014} Properties");
    assert_eq!(rename_question("/x/old.txt"), "Rename \"old.txt\":");
}

#[test]
fn tab_titles() {
    assert_eq!(tab_title("/"), "/");
    assert_eq!(tab_title("/home/u"), "u");
    assert_eq!(tab_title("/home/u/"), "u");
}

#[test]
fn rename_and_new_folder_targets() {
    assert_eq!(rename_target("/a/b.txt", "c.txt").as_deref(), Some("/a/c.txt"));
    assert_eq!(rename_target("/a/b.txt", "b.txt"), None);
    assert_eq!(rename_target("/a/b.txt", ""), None);
    assert_eq!(new_folder_path("/a", "new").as_deref(), Some("/a/new"));
    assert_eq!(new_folder_path("/a", ""), None);
}

#[test]
fn terminals_to_try() {
    let with_env = terminal_candidates(Some("foot"));
    assert_eq!(with_env.len(), 8);
    assert_eq!(with_env[0], "foot");
    assert_eq!(with_env[1], "kgx");
    let usual = terminal_candidates(None);
    assert_eq!(usual, strings(&["kgx", "gnome-terminal", "konsole", "xfce4-terminal", "alacritty", "kitty", "xterm"]));
}

#[test]
fn plugin_actions_and_help() {
    assert_eq!(plugin_action_names("wc"), ("plugin-wc".to_string(), "win.plugin-wc".to_string()));
    let help = help_shortcuts();
    assert_eq!(help.len(), 26);
    assert_eq!(help[0], ("Ctrl+C", "Copy"));
    assert_eq!(help[25], ("Tab", "Switch Pane"));
}
