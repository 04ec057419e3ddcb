//! Persistent preferences and the icon zoom steps.
use vstd::prelude::*;
use crate::paths::{joined, path_join};

verus! {

/// How a directory is shown.
#[derive(Clone, Copy, Debug, PartialEq, Eq, Structural)]
pub enum ViewMode {
    Icon,
    Details,
}

/// The column a listing is sorted by.
#[derive(Clone, Copy, Debug, PartialEq, Eq, Structural)]
pub enum SortColumn {
    Name,
    Size,
    Date,
}

/// The preferences of the application.
#[derive(Clone, Copy, Debug, PartialEq, Eq, Structural)]
pub struct Settings {
    pub default_view: ViewMode,
    pub show_hidden_files: bool,
    pub confirm_trash: bool,
    pub icon_size: i32,
    pub sort_by: SortColumn,
    pub sort_ascending: bool,
}

pub const DEFAULT_ICON_SIZE: i32 = 48;
pub const MIN_ICON_SIZE: i32 = 24;
pub const MAX_ICON_SIZE: i32 = 128;
pub const ICON_SIZE_STEP: i32 = 8;

impl Default for Settings {
    /// Icon view, hidden files not shown, trash confirmed, 48 px icons,
    /// sorted by name ascending.
    fn default() -> (s: Self)
        ensures
            s == (Settings {
                default_view: ViewMode::Icon,
                show_hidden_files: false,
                confirm_trash: true,
                icon_size: 48,
                sort_by: SortColumn::Name,
                sort_ascending: true,
            }),
    {
        Settings {
            default_view: ViewMode::Icon,
            show_hidden_files: false,
            confirm_trash: true,
            icon_size: DEFAULT_ICON_SIZE,
            sort_by: SortColumn::Name,
            sort_ascending: true,
        }
    }
}

/// The settings a configuration file gives: what it held when it could be
/// read and parsed, the defaults otherwise.
pub fn settings_or_default(parsed: Option<Settings>) -> (s: Settings)
    ensures
        s == (match parsed {
            Some(p) => p,
            None => Settings {
                default_view: ViewMode::Icon,
                show_hidden_files: false,
                confirm_trash: true,
                icon_size: 48,
                sort_by: SortColumn::Name,
                sort_ascending: true,
            },
        }),
{
    match parsed {
        Some(p) => p,
        None => Settings::default(),
    }
}

/// The icon size one zoom step up: 8 px more, at most 128.
pub fn zoom_in(size: i32) -> (res: i32)
    requires
        size <= i32::MAX - 8,
    ensures
        res == if size + 8 < 128 { size + 8 } else { 128 },
{
    let n = size + ICON_SIZE_STEP;
    if n < MAX_ICON_SIZE { n } else { MAX_ICON_SIZE }
}

/// The icon size one zoom step down: 8 px less, at least 24.
pub fn zoom_out(size: i32) -> (res: i32)
    requires
        size >= i32::MIN + 8,
    ensures
        res == if size - 8 > 24 { size - 8 } else { 24 },
{
    let n = size - ICON_SIZE_STEP;
    if n > MIN_ICON_SIZE { n } else { MIN_ICON_SIZE }
}

/// Zooming in and then out from a size within the zoom range, and more
/// than a step below its top, comes back to it.
pub proof fn lemma_zoom_in_out(size: i32)
    requires
        24 + 8 <= size + 8 < 128,
    ensures
        ({
            let up = if size + 8 < 128 { size + 8 } else { 128 };
            (if up - 8 > 24 { up - 8 } else { 24 }) == size
        }),
{
}

/// The row of the view chooser in the preferences window that shows a view
/// mode: icons first, details second.
pub fn view_mode_index(mode: ViewMode) -> (res: u32)
    ensures
        res == match mode { ViewMode::Icon => 0u32, ViewMode::Details => 1u32 },
{
    match mode {
        ViewMode::Icon => 0,
        ViewMode::Details => 1,
    }
}

/// The view mode chosen in row `index` of the view chooser; any row past
/// the first means details.
pub fn view_mode_at(index: u32) -> (res: ViewMode)
    ensures
        res == if index == 0 { ViewMode::Icon } else { ViewMode::Details },
{
    if index == 0 { ViewMode::Icon } else { ViewMode::Details }
}

/// The row of the sort chooser that shows a sort column: name, size, date.
pub fn sort_column_index(column: SortColumn) -> (res: u32)
    ensures
        res == match column { SortColumn::Name => 0u32, SortColumn::Size => 1u32, SortColumn::Date => 2u32 },
{
    match column {
        SortColumn::Name => 0,
        SortColumn::Size => 1,
        SortColumn::Date => 2,
    }
}

/// The sort column chosen in row `index` of the sort chooser; any row past
/// the second means date.
pub fn sort_column_at(index: u32) -> (res: SortColumn)
    ensures
        res == if index == 0 { SortColumn::Name } else if index == 1 { SortColumn::Size } else { SortColumn::Date },
{
    if index == 0 {
        SortColumn::Name
    } else if index == 1 {
        SortColumn::Size
    } else {
        SortColumn::Date
    }
}

/// The preferences window shows the stored choice and stores the shown one:
/// reading back the row of a view mode or sort column gives it again.
pub proof fn lemma_choosers_roundtrip(mode: ViewMode, column: SortColumn)
    ensures
        (if (match mode { ViewMode::Icon => 0u32, ViewMode::Details => 1u32 }) == 0 { ViewMode::Icon } else { ViewMode::Details }) == mode,
        ({
            let i = match column { SortColumn::Name => 0u32, SortColumn::Size => 1u32, SortColumn::Date => 2u32 };
            (if i == 0 { SortColumn::Name } else if i == 1 { SortColumn::Size } else { SortColumn::Date }) == column
        }),
{
}

/// The directory of the application's own files below the user's
/// configuration directory (`~/.config` when that is unknown).
pub open spec fn app_dir(config_dir: Option<Seq<char>>) -> Seq<char> {
    joined(match config_dir { Some(d) => d, None => "~/.config"@ }, "oxide-explorer"@)
}

/// The path of the application's file `name`: the preferences
/// ("config.toml"), key bindings ("keybindings.toml"), bookmarks
/// ("bookmarks.txt"), recent connections ("recent_connections.txt") or the
/// plugin directory ("plugins").
pub fn app_file(config_dir: Option<&str>, name: &str) -> (res: String)
    ensures
        res@ == joined(app_dir(match config_dir { Some(d) => Some(d@), None => None }), name@),
{
    let base = match config_dir {
        Some(d) => path_join(d, "oxide-explorer"),
        None => path_join("~/.config", "oxide-explorer"),
    };
    path_join(base.as_str(), name)
}

} // verus!
