use oxide_explorer::keybindings::{default_shortcuts, KeybindingConfig};

#[test]
fn default_config_has_no_overrides() {
    let c = KeybindingConfig::default();
    assert!(!c.vim_mode);
    assert!(c.custom_bindings.is_empty());
    let table = c.shortcuts();
    let defaults = default_shortcuts();
    assert_eq!(table.len(), defaults.len());
    assert_eq!(table[0], ("<Control>c".to_string(), "win.copy".to_string()));
}

#[test]
fn vim_keys_follow_the_defaults() {
    let vim = KeybindingConfig::vim_shortcuts();
    assert_eq!(vim.len(), 17);
    assert_eq!(vim[0], ("h", "win.go-up"));
    assert_eq!(vim[2], ("j", "win.select-next"));
    let c = KeybindingConfig { vim_mode: true, custom_bindings: Vec::new() };
    let table = c.shortcuts();
    assert_eq!(table.len(), default_shortcuts().len() + vim.len());
    assert_eq!(table[default_shortcuts().len()], ("h".to_string(), "win.go-up".to_string()));
}

#[test]
fn an_override_replaces_every_key_of_its_action() {
    let c = KeybindingConfig {
        vim_mode: true,
        custom_bindings: vec![("copy".to_string(), "<Control><Shift>y".to_string())],
    };
    let table = c.shortcuts();
    let copies: Vec<&(String, String)> = table.iter().filter(|(_, a)| a == "win.copy").collect();
    assert_eq!(copies.len(), 1);
    assert_eq!(copies[0].0, "<Control><Shift>y");
    assert_eq!(table.last().unwrap(), &("<Control><Shift>y".to_string(), "win.copy".to_string()));
    // the keys of other actions stay
    assert!(table.iter().any(|(k, a)| k == "<Control>x" && a == "win.cut"));
    assert_eq!(table.len(), default_shortcuts().len() + 17 - 2 + 1);
}

#[test]
fn overrides_with_a_repeated_action_are_detected() {
    let ok = KeybindingConfig {
        vim_mode: false,
        custom_bindings: vec![("copy".into(), "<Control>y".into()), ("paste".into(), "<Control>p".into())],
    };
    assert!(ok.has_distinct_actions());
    let twice = KeybindingConfig {
        vim_mode: false,
        custom_bindings: vec![("copy".into(), "<Control>y".into()), ("copy".into(), "<Control>k".into())],
    };
    assert!(!twice.has_distinct_actions());
    assert!(KeybindingConfig::default().has_distinct_actions());
}
