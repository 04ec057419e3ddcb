use oxide_explorer::plugins::{context_menu, find_action, is_plugin_file, PluginAction};

fn action(name: &str, label: &str) -> PluginAction {
    PluginAction { name: name.to_string(), label: label.to_string(), icon: None }
}

#[test]
fn actions_are_found_by_name() {
    let actions = vec![action("word_count", "Count Lines"), action("open", "Open"), action("word_count", "Again")];
    assert_eq!(find_action(&actions, "word_count"), Some(0));
    assert_eq!(find_action(&actions, "open"), Some(1));
    assert_eq!(find_action(&actions, "missing"), None);
    assert_eq!(find_action(&Vec::new(), "open"), None);
}

#[test]
fn plugin_files() {
    assert!(is_plugin_file("/home/u/.config/oxide-explorer/plugins/example.lua"));
    assert!(!is_plugin_file("/p/a.LUA"));
    assert!(!is_plugin_file("/p/lua"));
    assert!(!is_plugin_file("/p/a.lua.bak"));
}

#[test]
fn context_menu_sections() {
    let plain = context_menu(&Vec::new());
    assert_eq!(plain.len(), 6);
    assert_eq!(plain[5], vec![("Properties".to_string(), "win.properties".to_string())]);
    assert_eq!(plain[0][0], ("New Folder".to_string(), "win.new-folder".to_string()));
    assert_eq!(plain[1].len(), 6);
    assert_eq!(plain[4], vec![("Move to Trash".to_string(), "win.trash".to_string())]);
    let with = context_menu(&vec![action("word_count", "Count Lines")]);
    assert_eq!(with.len(), 7);
    assert_eq!(with[6][0].1, "win.properties");
    assert_eq!(with[5], vec![("Count Lines".to_string(), "win.plugin-word_count".to_string())]);
}
