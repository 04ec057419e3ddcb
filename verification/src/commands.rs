//! What the window's commands decide before they touch the file system:
//! which item a key moves the selection to, the paths a dialog acts on, and
//! the messages shown to the user.
use vstd::prelude::*;
use crate::lines::views;
use crate::paths::{joined, parent_of, path_join, path_parent, file_name_of, name_or_empty, file_name_or_empty, path_file_name};
use crate::text::{decimal, decimal_text, owned, same_text, concat2, concat3};

verus! {

/// The index of the first selected item, or 0 when none is.
pub open spec fn first_selected(sel: Seq<bool>) -> nat
    decreases sel.len(),
{
    if sel.len() == 0 {
        0
    } else if sel[0] {
        0
    } else if exists|i: int| 0 <= i < sel.len() && sel[i] {
        1 + first_selected(sel.drop_first())
    } else {
        0
    }
}

proof fn lemma_first_selected(sel: Seq<bool>)
    ensures
        first_selected(sel) < sel.len() || sel.len() == 0,
        (exists|i: int| 0 <= i < sel.len() && sel[i]) ==> sel[first_selected(sel) as int],
        (exists|i: int| 0 <= i < sel.len() && sel[i]) ==> forall|j: int| 0 <= j < first_selected(sel) ==> !#[trigger] sel[j],
        !(exists|i: int| 0 <= i < sel.len() && sel[i]) ==> first_selected(sel) == 0,
    decreases sel.len(),
{
    if sel.len() > 0 && !sel[0] {
        let rest = sel.drop_first();
        lemma_first_selected(rest);
        if exists|i: int| 0 <= i < sel.len() && sel[i] {
            let i = choose|i: int| 0 <= i < sel.len() && sel[i];
            assert(rest[i - 1]);
            assert forall|j: int| 0 <= j < first_selected(sel) implies !#[trigger] sel[j] by {
                if j > 0 {
                    assert(sel[j] == rest[j - 1]);
                }
            }
        } else {
            assert(!(exists|i: int| 0 <= i < rest.len() && rest[i])) by {
                if exists|i: int| 0 <= i < rest.len() && rest[i] {
                    let i = choose|i: int| 0 <= i < rest.len() && rest[i];
                    assert(sel[i + 1]);
                }
            }
        }
    }
}

/// The index of the first selected item (0 when none is), found by a scan.
fn first_selected_index(sel: &Vec<bool>) -> (res: usize)
    ensures
        res == first_selected(sel@),
{
    proof {
        lemma_first_selected(sel@);
    }
    let mut i: usize = 0;
    while i < sel.len()
        invariant
            i <= sel.len(),
            forall|j: int| 0 <= j < i ==> !sel@[j],
        decreases sel.len() - i,
    {
        if sel[i] {
            proof {
                lemma_first_selected(sel@);
                assert(sel@[i as int]);
                let f = first_selected(sel@) as int;
                assert(sel@[f]);
                if f < i {
                    assert(!sel@[f]);
                }
                if f > i {
                    assert(!sel@[i as int]);
                }
            }
            return i;
        }
        i += 1;
    }
    0
}

/// Where "select next" moves the selection among `n` items: one past the
/// first selected item, but no further than the last; nothing when the
/// view is empty.
pub open spec fn next_target(sel: Seq<bool>) -> Option<nat> {
    if sel.len() == 0 {
        None
    } else if first_selected(sel) + 1 < sel.len() {
        Some(first_selected(sel) + 1)
    } else {
        Some((sel.len() - 1) as nat)
    }
}

/// Where "select previous" moves the selection: one before the first
/// selected item, but not before the first item.
pub open spec fn prev_target(sel: Seq<bool>) -> Option<nat> {
    if sel.len() == 0 {
        None
    } else if first_selected(sel) > 0 {
        Some((first_selected(sel) - 1) as nat)
    } else {
        Some(0)
    }
}

/// The item "select next" selects, given which items are selected now.
pub fn select_next(sel: &Vec<bool>) -> (res: Option<usize>)
    ensures
        match res {
            Some(i) => next_target(sel@) == Some(i as nat),
            None => next_target(sel@) is None,
        },
{
    let n = sel.len();
    if n == 0 {
        return None;
    }
    proof {
        lemma_first_selected(sel@);
    }
    let cur = first_selected_index(sel);
    if cur + 1 < n {
        Some(cur + 1)
    } else {
        Some(n - 1)
    }
}

/// The item "select previous" selects, given which items are selected now.
pub fn select_prev(sel: &Vec<bool>) -> (res: Option<usize>)
    ensures
        match res {
            Some(i) => prev_target(sel@) == Some(i as nat),
            None => prev_target(sel@) is None,
        },
{
    let n = sel.len();
    if n == 0 {
        return None;
    }
    let cur = first_selected_index(sel);
    if cur > 0 {
        Some(cur - 1)
    } else {
        Some(0)
    }
}

/// The item "go to first" selects among `n` items.
pub fn select_first(n: usize) -> (res: Option<usize>)
    ensures
        res == if n == 0 { None } else { Some(0usize) },
{
    if n == 0 { None } else { Some(0) }
}

/// The item "go to last" selects among `n` items.
pub fn select_last(n: usize) -> (res: Option<usize>)
    ensures
        res == if n == 0 { None } else { Some((n - 1) as usize) },
{
    if n == 0 { None } else { Some(n - 1) }
}

/// The selection after "invert selection": every item flipped.
pub fn inverted(sel: &Vec<bool>) -> (res: Vec<bool>)
    ensures
        res@.len() == sel@.len(),
        forall|i: int| 0 <= i < sel@.len() ==> res@[i] == !sel@[i],
{
    let mut res: Vec<bool> = Vec::new();
    let mut i: usize = 0;
    while i < sel.len()
        invariant
            i <= sel.len(),
            res@.len() == i,
            forall|j: int| 0 <= j < i ==> res@[j] == !sel@[j],
        decreases sel.len() - i,
    {
        res.push(!sel[i]);
        i += 1;
    }
    res
}

/// The items of `items` whose flag in `sel` is set, in order.
pub open spec fn picked(items: Seq<Seq<char>>, sel: Seq<bool>) -> Seq<Seq<char>>
    decreases items.len(),
{
    if items.len() == 0 || sel.len() == 0 {
        Seq::empty()
    } else {
        let pre = picked(items.drop_last(), sel.drop_last());
        if sel.last() {
            pre.push(items.last())
        } else {
            pre
        }
    }
}

/// The paths of the selected items, in view order.
pub fn selected_paths(items: &Vec<String>, sel: &Vec<bool>) -> (res: Vec<String>)
    requires
        items.len() == sel.len(),
    ensures
        views(res@) == picked(views(items@), sel@),
{
    let mut res: Vec<String> = Vec::new();
    let mut i: usize = 0;
    while i < items.len()
        invariant
            items.len() == sel.len(),
            i <= items.len(),
            views(res@) == picked(views(items@).take(i as int), sel@.take(i as int)),
        decreases items.len() - i,
    {
        proof {
            assert(views(items@).take(i + 1).drop_last() =~= views(items@).take(i as int));
            assert(sel@.take(i + 1).drop_last() =~= sel@.take(i as int));
            assert(views(items@).take(i + 1).last() == items@[i as int]@);
        }
        if sel[i] {
            let ghost prev = views(res@);
            res.push(items[i].clone());
            assert(views(res@) =~= prev.push(items@[i as int]@));
        }
        i += 1;
    }
    assert(views(items@).take(items.len() as int) =~= views(items@));
    assert(sel@.take(items.len() as int) =~= sel@);
    res
}

/// The question asked before moving files to the trash.
pub open spec fn trash_question(paths: Seq<Seq<char>>) -> Seq<char> {
    if paths.len() == 1 {
        "Move \""@ + name_or_empty(paths[0]) + "\" to trash?"@
    } else {
        "Move "@ + decimal(paths.len()) + " items to trash?"@
    }
}

/// The question asked before moving the selected files to the trash.
pub fn trash_prompt(paths: &Vec<String>) -> (res: String)
    ensures
        res@ == trash_question(views(paths@)),
{
    if paths.len() == 1 {
        let name = file_name_or_empty(paths[0].as_str());
        concat3("Move \"", name.as_str(), "\" to trash?")
    } else {
        let n = decimal_text(paths.len() as u64);
        concat3("Move ", n.as_str(), " items to trash?")
    }
}

/// The notice after moving `count` items to the trash.
pub fn trashed_toast(count: usize) -> (res: String)
    ensures
        res@ == "Moved "@ + decimal(count as nat) + " item"@
            + (if count == 1 { Seq::<char>::empty() } else { "s"@ }) + " to Trash"@,
{
    let n = decimal_text(count as u64);
    let mut res = concat3("Moved ", n.as_str(), " item");
    if count != 1 {
        res.append("s");
    }
    res.append(" to Trash");
    proof {
        if count == 1 {
            assert(res@ =~= "Moved "@ + decimal(count as nat) + " item"@ + Seq::<char>::empty() + " to Trash"@);
        }
    }
    res
}

/// The notice after copying or cutting `count` items: "N item(s) copied"
/// or "N item(s) cut".
pub fn clipboard_toast(count: usize, cut: bool) -> (res: String)
    ensures
        res@ == decimal(count as nat) + (if cut { " item(s) cut"@ } else { " item(s) copied"@ }),
{
    let n = decimal_text(count as u64);
    if cut {
        concat2(n.as_str(), " item(s) cut")
    } else {
        concat2(n.as_str(), " item(s) copied")
    }
}

/// The notice after bookmarking `dir`.
pub fn bookmarked_toast(dir: &str) -> (res: String)
    ensures
        res@ == "Bookmarked \""@ + name_or_empty(dir@) + "\""@,
{
    let name = file_name_or_empty(dir);
    concat3("Bookmarked \"", name.as_str(), "\"")
}

/// A failure notice: what failed, a colon, and the error.
pub fn failure_toast(what: &str, error: &str) -> (res: String)
    ensures
        res@ == what@ + ": "@ + error@,
{
    concat3(what, ": ", error)
}

/// The title of a tab showing `path`: its file name, or "/" when it has
/// none.
pub fn tab_title(path: &str) -> (res: String)
    ensures
        res@ == match file_name_of(path@) {
            Some(n) => n,
            None => "/"@,
        },
{
    match path_file_name(path) {
        Some(n) => n,
        None => owned("/"),
    }
}

/// The title of the properties window of `path`.
pub fn properties_title(path: &str) -> (res: String)
    ensures
        res@ == name_or_empty(path@) + " \u{2014} Properties"@,
{
    let name = file_name_or_empty(path);
    concat2(name.as_str(), " \u{2014} Properties")
}

/// The question of the rename dialog for `path`.
pub fn rename_question(path: &str) -> (res: String)
    ensures
        res@ == "Rename \""@ + name_or_empty(path@) + "\":"@,
{
    let name = file_name_or_empty(path);
    concat3("Rename \"", name.as_str(), "\":")
}

/// Where renaming `old` to the typed name moves it: beside it in its
/// directory (in the path itself when it has no parent), unless the name
/// is empty or unchanged.
pub open spec fn rename_destination(old: Seq<char>, entered: Seq<char>) -> Option<Seq<char>> {
    if entered.len() == 0 || entered == name_or_empty(old) {
        None
    } else {
        Some(joined(match parent_of(old) { Some(p) => p, None => old }, entered))
    }
}

/// The new path of a rename, or `None` when nothing is to be done.
pub fn rename_target(old: &str, entered: &str) -> (res: Option<String>)
    ensures
        match res {
            Some(p) => rename_destination(old@, entered@) == Some(p@),
            None => rename_destination(old@, entered@) is None,
        },
{
    let name = file_name_or_empty(old);
    if entered.is_empty() || same_text(entered, name.as_str()) {
        return None;
    }
    let dir = match path_parent(old) {
        Some(p) => p,
        None => owned(old),
    };
    Some(path_join(dir.as_str(), entered))
}

/// The path of a new folder named `name` in `dir`, or `None` when no name
/// was typed.
pub fn new_folder_path(dir: &str, name: &str) -> (res: Option<String>)
    ensures
        match res {
            Some(p) => name@.len() > 0 && p@ == joined(dir@, name@),
            None => name@.len() == 0,
        },
{
    if name.is_empty() {
        None
    } else {
        Some(path_join(dir, name))
    }
}

/// The terminals tried in turn to open a terminal: the one named by the
/// environment first, then the usual ones.
pub open spec fn terminal_list(env: Option<Seq<char>>) -> Seq<Seq<char>> {
    let usual = seq![
        "kgx"@, "gnome-terminal"@, "konsole"@, "xfce4-terminal"@, "alacritty"@, "kitty"@, "xterm"@,
    ];
    match env {
        Some(t) => seq![t] + usual,
        None => usual,
    }
}

/// The terminal programs to try, in order.
pub fn terminal_candidates(env: Option<&str>) -> (res: Vec<String>)
    ensures
        views(res@) == terminal_list(match env { Some(t) => Some(t@), None => None }),
{
    let mut res: Vec<String> = Vec::new();
    match env {
        Some(t) => res.push(owned(t)),
        None => {}
    }
    res.push(owned("kgx"));
    res.push(owned("gnome-terminal"));
    res.push(owned("konsole"));
    res.push(owned("xfce4-terminal"));
    res.push(owned("alacritty"));
    res.push(owned("kitty"));
    res.push(owned("xterm"));
    assert(views(res@) =~= terminal_list(match env { Some(t) => Some(t@), None => None }));
    res
}

/// Where the trash keeps a trashed file named `name` and its record, below
/// the user's data directory.
pub fn trash_locations(data_dir: &str, name: &str) -> (res: (String, String))
    ensures
        res.0@ == joined(joined(data_dir@, "Trash/files"@), name@),
        res.1@ == joined(joined(data_dir@, "Trash/info"@), name@ + ".trashinfo"@),
{
    let files = path_join(data_dir, "Trash/files");
    let info = path_join(data_dir, "Trash/info");
    let record = concat2(name, ".trashinfo");
    (path_join(files.as_str(), name), path_join(info.as_str(), record.as_str()))
}

/// The actions named for a plugin action: its name in the window's action
/// group, and the full name a menu item refers to.
pub fn plugin_action_names(name: &str) -> (res: (String, String))
    ensures
        res.0@ == "plugin-"@ + name@,
        res.1@ == "win.plugin-"@ + name@,
{
    (concat2("plugin-", name), concat2("win.plugin-", name))
}

/// The notice after reloading plugins that registered `count` actions.
pub fn plugins_reloaded_toast(count: usize) -> (res: String)
    ensures
        res@ == "Plugins reloaded ("@ + decimal(count as nat) + " actions)"@,
{
    let n = decimal_text(count as u64);
    concat3("Plugins reloaded (", n.as_str(), " actions)")
}

/// The shortcut help: each key with what it does.
pub open spec fn help_table() -> Seq<(Seq<char>, Seq<char>)> {
    seq![
        ("Ctrl+C"@, "Copy"@), ("Ctrl+X"@, "Cut"@), ("Ctrl+V"@, "Paste"@), ("Ctrl+Shift+C"@, "Copy Path"@),
        ("Ctrl+A"@, "Select All"@), ("Ctrl+I"@, "Invert Selection"@), ("Delete"@, "Move to Trash"@), ("F2"@, "Rename"@),
        ("Ctrl+H"@, "Toggle Hidden"@), ("Ctrl+L"@, "Edit Location"@), ("Ctrl+F"@, "Filter"@),
        ("Alt+Left"@, "Back"@), ("Alt+Right"@, "Forward"@), ("Alt+Up"@, "Parent"@),
        ("Ctrl++"@, "Zoom In"@), ("Ctrl+-"@, "Zoom Out"@), ("Ctrl+0"@, "Reset Zoom"@),
        ("Alt+Enter"@, "Properties"@), ("Ctrl+Alt+T"@, "Open Terminal"@), ("Ctrl+,"@, "Preferences"@),
        ("Ctrl+D"@, "Bookmark Folder"@), ("Ctrl+T"@, "New Tab"@), ("Ctrl+W"@, "Close Tab"@),
        ("F6"@, "Copy to Other Pane"@), ("Shift+F6"@, "Move to Other Pane"@), ("Tab"@, "Switch Pane"@),
    ]
}

/// The shortcut help shown in the shortcuts window, in order.
pub fn help_shortcuts() -> (res: Vec<(&'static str, &'static str)>)
    ensures
        res@.map_values(|p: (&str, &str)| (p.0@, p.1@)) == help_table(),
{
    let res = vec![
        ("Ctrl+C", "Copy"), ("Ctrl+X", "Cut"), ("Ctrl+V", "Paste"), ("Ctrl+Shift+C", "Copy Path"),
        ("Ctrl+A", "Select All"), ("Ctrl+I", "Invert Selection"), ("Delete", "Move to Trash"), ("F2", "Rename"),
        ("Ctrl+H", "Toggle Hidden"), ("Ctrl+L", "Edit Location"), ("Ctrl+F", "Filter"),
        ("Alt+Left", "Back"), ("Alt+Right", "Forward"), ("Alt+Up", "Parent"),
        ("Ctrl++", "Zoom In"), ("Ctrl+-", "Zoom Out"), ("Ctrl+0", "Reset Zoom"),
        ("Alt+Enter", "Properties"), ("Ctrl+Alt+T", "Open Terminal"), ("Ctrl+,", "Preferences"),
        ("Ctrl+D", "Bookmark Folder"), ("Ctrl+T", "New Tab"), ("Ctrl+W", "Close Tab"),
        ("F6", "Copy to Other Pane"), ("Shift+F6", "Move to Other Pane"), ("Tab", "Switch Pane"),
    ];
    assert(res@.map_values(|p: (&str, &str)| (p.0@, p.1@)) =~= help_table());
    res
}

} // verus!

verus! {

/// "Select next" and "select previous" stay within the view and move the
/// selection by at most one item from the first selected one: next goes
/// one down unless already at the end, previous one up unless already at
/// the top.
pub proof fn lemma_selection_moves(sel: Seq<bool>)
    ensures
        sel.len() == 0 ==> next_target(sel) is None && prev_target(sel) is None,
        sel.len() > 0 ==> (next_target(sel) matches Some(k) && k < sel.len()
            && (if first_selected(sel) + 1 < sel.len() { k == first_selected(sel) + 1 } else { k == first_selected(sel) })),
        sel.len() > 0 ==> (prev_target(sel) matches Some(k) && k < sel.len()
            && (if first_selected(sel) > 0 { k + 1 == first_selected(sel) } else { k == 0 })),
{
    lemma_first_selected(sel);
}

proof fn lemma_picked_parts(items: Seq<Seq<char>>, sel: Seq<bool>)
    requires
        items.len() == sel.len(),
    ensures
        forall|i: int| 0 <= i < items.len() && #[trigger] sel[i] ==> picked(items, sel).contains(items[i]),
        forall|j: int| 0 <= j < picked(items, sel).len() ==> items.contains(#[trigger] picked(items, sel)[j]),
        (forall|i: int| 0 <= i < sel.len() ==> !#[trigger] sel[i]) ==> picked(items, sel).len() == 0,
        (forall|i: int| 0 <= i < sel.len() ==> #[trigger] sel[i]) ==> picked(items, sel) == items,
    decreases items.len(),
{
    if items.len() > 0 {
        let pi = items.drop_last();
        let ps = sel.drop_last();
        lemma_picked_parts(pi, ps);
        let pre = picked(pi, ps);
        assert forall|i: int| 0 <= i < items.len() && #[trigger] sel[i] implies picked(items, sel).contains(items[i]) by {
            if i < items.len() - 1 {
                assert(ps[i] == sel[i]);
                assert(pi[i] == items[i]);
                let j = choose|j: int| 0 <= j < pre.len() && pre[j] == items[i];
                assert(picked(items, sel)[j] == items[i]);
            } else {
                assert(picked(items, sel) == pre.push(items.last()));
                assert(picked(items, sel)[pre.len() as int] == items[i]);
            }
        }
        assert forall|j: int| 0 <= j < picked(items, sel).len() implies items.contains(#[trigger] picked(items, sel)[j]) by {
            if j < pre.len() {
                assert(picked(items, sel)[j] == pre[j]);
                let k = choose|k: int| 0 <= k < pi.len() && pi[k] == pre[j];
                assert(items[k] == pi[k]);
            } else {
                assert(picked(items, sel)[j] == items[items.len() - 1]);
            }
        }
        if forall|i: int| 0 <= i < sel.len() ==> !#[trigger] sel[i] {
            assert forall|i: int| 0 <= i < ps.len() implies !#[trigger] ps[i] by {
                assert(ps[i] == sel[i]);
            }
            assert(!sel[sel.len() - 1]);
        }
        if forall|i: int| 0 <= i < sel.len() ==> #[trigger] sel[i] {
            assert forall|i: int| 0 <= i < ps.len() implies #[trigger] ps[i] by {
                assert(ps[i] == sel[i]);
            }
            assert(sel[sel.len() - 1]);
            assert(pi.push(items.last()) =~= items);
        }
    }
}

/// The selected paths are exactly taken from the selection: every selected
/// item is among them and nothing else is; with nothing selected there are
/// none, and with everything selected they are all the items in order.
pub proof fn lemma_selected_paths(items: Seq<Seq<char>>, sel: Seq<bool>)
    requires
        items.len() == sel.len(),
    ensures
        forall|i: int| 0 <= i < items.len() && #[trigger] sel[i] ==> picked(items, sel).contains(items[i]),
        forall|j: int| 0 <= j < picked(items, sel).len() ==> items.contains(#[trigger] picked(items, sel)[j]),
        (forall|i: int| 0 <= i < sel.len() ==> !#[trigger] sel[i]) ==> picked(items, sel).len() == 0,
        (forall|i: int| 0 <= i < sel.len() ==> #[trigger] sel[i]) ==> picked(items, sel) == items,
{
    lemma_picked_parts(items, sel);
}

/// The terminal named by the environment is tried first, then the usual
/// ones, the same with or without it: GNOME Console, GNOME Terminal,
/// Konsole, the Xfce terminal, Alacritty, kitty and xterm.
pub proof fn lemma_terminal_order(t: Seq<char>)
    ensures
        terminal_list(Some(t))[0] == t,
        terminal_list(Some(t)).drop_first() == terminal_list(None),
        terminal_list(None).len() == 7,
        terminal_list(None)[0] == "kgx"@,
        terminal_list(None)[1] == "gnome-terminal"@,
        terminal_list(None)[2] == "konsole"@,
        terminal_list(None)[3] == "xfce4-terminal"@,
        terminal_list(None)[4] == "alacritty"@,
        terminal_list(None)[5] == "kitty"@,
        terminal_list(None)[6] == "xterm"@,
{
    assert(terminal_list(Some(t)).drop_first() =~= terminal_list(None));
}

} // verus!

verus! {

/// The shortcuts window describes each key it lists by what the key does
/// (26 keys): Ctrl+C copies, Ctrl+X cuts, Ctrl+V pastes, Delete
/// moves to the trash, and so on.
pub proof fn lemma_help_describes_keys()
    ensures
        help_table().len() == 26,
        help_table().contains(("Ctrl+C"@, "Copy"@)),
        help_table().contains(("Ctrl+X"@, "Cut"@)),
        help_table().contains(("Ctrl+V"@, "Paste"@)),
        help_table().contains(("Ctrl+Shift+C"@, "Copy Path"@)),
        help_table().contains(("Ctrl+A"@, "Select All"@)),
        help_table().contains(("Ctrl+I"@, "Invert Selection"@)),
        help_table().contains(("Delete"@, "Move to Trash"@)),
        help_table().contains(("F2"@, "Rename"@)),
        help_table().contains(("Ctrl+H"@, "Toggle Hidden"@)),
        help_table().contains(("Ctrl+L"@, "Edit Location"@)),
        help_table().contains(("Ctrl+F"@, "Filter"@)),
        help_table().contains(("Alt+Left"@, "Back"@)),
        help_table().contains(("Alt+Right"@, "Forward"@)),
        help_table().contains(("Alt+Up"@, "Parent"@)),
        help_table().contains(("Ctrl++"@, "Zoom In"@)),
        help_table().contains(("Ctrl+-"@, "Zoom Out"@)),
        help_table().contains(("Ctrl+0"@, "Reset Zoom"@)),
        help_table().contains(("Alt+Enter"@, "Properties"@)),
        help_table().contains(("Ctrl+Alt+T"@, "Open Terminal"@)),
        help_table().contains(("Ctrl+,"@, "Preferences"@)),
        help_table().contains(("Ctrl+D"@, "Bookmark Folder"@)),
        help_table().contains(("Ctrl+T"@, "New Tab"@)),
        help_table().contains(("Ctrl+W"@, "Close Tab"@)),
        help_table().contains(("F6"@, "Copy to Other Pane"@)),
        help_table().contains(("Shift+F6"@, "Move to Other Pane"@)),
        help_table().contains(("Tab"@, "Switch Pane"@)),
{
    assert(help_table()[0] == ("Ctrl+C"@, "Copy"@));
    assert(help_table()[1] == ("Ctrl+X"@, "Cut"@));
    assert(help_table()[2] == ("Ctrl+V"@, "Paste"@));
    assert(help_table()[3] == ("Ctrl+Shift+C"@, "Copy Path"@));
    assert(help_table()[4] == ("Ctrl+A"@, "Select All"@));
    assert(help_table()[5] == ("Ctrl+I"@, "Invert Selection"@));
    assert(help_table()[6] == ("Delete"@, "Move to Trash"@));
    assert(help_table()[7] == ("F2"@, "Rename"@));
    assert(help_table()[8] == ("Ctrl+H"@, "Toggle Hidden"@));
    assert(help_table()[9] == ("Ctrl+L"@, "Edit Location"@));
    assert(help_table()[10] == ("Ctrl+F"@, "Filter"@));
    assert(help_table()[11] == ("Alt+Left"@, "Back"@));
    assert(help_table()[12] == ("Alt+Right"@, "Forward"@));
    assert(help_table()[13] == ("Alt+Up"@, "Parent"@));
    assert(help_table()[14] == ("Ctrl++"@, "Zoom In"@));
    assert(help_table()[15] == ("Ctrl+-"@, "Zoom Out"@));
    assert(help_table()[16] == ("Ctrl+0"@, "Reset Zoom"@));
    assert(help_table()[17] == ("Alt+Enter"@, "Properties"@));
    assert(help_table()[18] == ("Ctrl+Alt+T"@, "Open Terminal"@));
    assert(help_table()[19] == ("Ctrl+,"@, "Preferences"@));
    assert(help_table()[20] == ("Ctrl+D"@, "Bookmark Folder"@));
    assert(help_table()[21] == ("Ctrl+T"@, "New Tab"@));
    assert(help_table()[22] == ("Ctrl+W"@, "Close Tab"@));
    assert(help_table()[23] == ("F6"@, "Copy to Other Pane"@));
    assert(help_table()[24] == ("Shift+F6"@, "Move to Other Pane"@));
    assert(help_table()[25] == ("Tab"@, "Switch Pane"@));
}

} // verus!
