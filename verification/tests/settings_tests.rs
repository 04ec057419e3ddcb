use oxide_explorer::settings::{
    app_file, settings_or_default, sort_column_at, sort_column_index, view_mode_at, view_mode_index, zoom_in,
    zoom_out, Settings, SortColumn, ViewMode,
};

#[test]
fn default_settings() {
    let s = Settings::default();
    assert_eq!(s.default_view, ViewMode::Icon);
    assert!(!s.show_hidden_files);
    assert!(s.confirm_trash);
    assert_eq!(s.icon_size, 48);
    assert_eq!(s.sort_by, SortColumn::Name);
    assert!(s.sort_ascending);
    assert_eq!(settings_or_default(None), s);
    let custom = Settings { icon_size: 64, ..s };
    assert_eq!(settings_or_default(Some(custom)), custom);
}

#[test]
fn zoom_steps() {
    assert_eq!(zoom_in(48), 56);
    assert_eq!(zoom_in(124), 128);
    assert_eq!(zoom_in(128), 128);
    assert_eq!(zoom_out(48), 40);
    assert_eq!(zoom_out(28), 24);
    assert_eq!(zoom_out(zoom_in(48)), 48);
}

#[test]
fn preference_choosers() {
    assert_eq!(view_mode_index(ViewMode::Details), 1);
    assert_eq!(view_mode_at(0), ViewMode::Icon);
    assert_eq!(view_mode_at(5), ViewMode::Details);
    assert_eq!(sort_column_index(SortColumn::Date), 2);
    assert_eq!(sort_column_at(1), SortColumn::Size);
    assert_eq!(sort_column_at(9), SortColumn::Date);
    for c in [SortColumn::Name, SortColumn::Size, SortColumn::Date] {
        assert_eq!(sort_column_at(sort_column_index(c)), c);
    }
}

#[test]
fn application_files() {
    assert_eq!(app_file(Some("/home/u/.config"), "config.toml"), "/home/u/.config/oxide-explorer/config.toml");
    assert_eq!(app_file(None, "bookmarks.txt"), "~/.config/oxide-explorer/bookmarks.txt");
}
