//! The actions plugins register, how one is found by name, which files are
//! plugins, and the context menu that offers them.
use vstd::prelude::*;
use crate::lines::views;
use crate::paths::{extension_of, path_extension};
use crate::text::{owned, same_text, concat2};

verus! {

/// An action a plugin registered: its unique name, the label shown in the
/// menu, and an optional icon.
#[derive(Clone, Debug)]
pub struct PluginAction {
    pub name: String,
    pub label: String,
    pub icon: Option<String>,
}

/// The names of a list of plugin actions.
pub open spec fn action_names(actions: Seq<PluginAction>) -> Seq<Seq<char>> {
    actions.map_values(|a: PluginAction| a.name@)
}

/// The first position at which `name` occurs in `names`, if any.
pub open spec fn first_index(names: Seq<Seq<char>>, name: Seq<char>) -> Option<nat>
    decreases names.len(),
{
    if names.len() == 0 {
        None
    } else if names[0] == name {
        Some(0)
    } else {
        match first_index(names.drop_first(), name) {
            Some(i) => Some(i + 1),
            None => None,
        }
    }
}

/// The position of the first registered action named `name`: the one a
/// menu entry with that name runs.
pub fn find_action(actions: &Vec<PluginAction>, name: &str) -> (res: Option<usize>)
    ensures
        match res {
            Some(i) => first_index(action_names(actions@), name@) == Some(i as nat),
            None => first_index(action_names(actions@), name@) is None,
        },
{
    let ghost all = action_names(actions@);
    let mut i: usize = 0;
    assert(all.skip(0) =~= all);
    while i < actions.len()
        invariant
            i <= actions.len(),
            all == action_names(actions@),
            first_index(all, name@) == match first_index(all.skip(i as int), name@) {
                Some(k) => Some((k + i) as nat),
                None => None,
            },
        decreases actions.len() - i,
    {
        assert(all.skip(i as int).drop_first() =~= all.skip(i + 1));
        assert(all.skip(i as int)[0] == actions@[i as int].name@);
        if same_text(actions[i].name.as_str(), name) {
            return Some(i);
        }
        i += 1;
    }
    assert(all.skip(i as int) =~= Seq::<Seq<char>>::empty());
    None
}

/// A found action carries the name it was looked up by, and no earlier
/// action has that name.
pub proof fn lemma_found_action_first(names: Seq<Seq<char>>, name: Seq<char>)
    ensures
        first_index(names, name) matches Some(i) ==> i < names.len() && names[i as int] == name
            && forall|j: int| 0 <= j < i ==> #[trigger] names[j] != name,
        first_index(names, name) is None ==> !names.contains(name),
    decreases names.len(),
{
    if names.len() > 0 {
        let rest = names.drop_first();
        lemma_found_action_first(rest, name);
        if names[0] != name {
            if let Some(i) = first_index(rest, name) {
                assert forall|j: int| 0 <= j < i + 1 implies #[trigger] names[j] != name by {
                    if j > 0 {
                        assert(names[j] == rest[j - 1]);
                    }
                }
            } else {
                if names.contains(name) {
                    let k = choose|k: int| 0 <= k < names.len() && names[k] == name;
                    assert(rest[k - 1] == name);
                }
            }
        }
    }
}

/// Whether the file at `path` is a plugin: its extension is "lua".
pub fn is_plugin_file(path: &str) -> (res: bool)
    ensures
        res == (extension_of(path@) == Some("lua"@)),
{
    match path_extension(path) {
        Some(e) => same_text(e.as_str(), "lua"),
        None => false,
    }
}

/// The fixed sections of the context menu: label and action of each entry.
pub open spec fn menu_sections() -> Seq<Seq<(Seq<char>, Seq<char>)>> {
    seq![
        seq![
            ("New Folder"@, "win.new-folder"@),
            ("Open Terminal Here"@, "win.open-terminal"@),
            ("Open With..."@, "win.open-with"@),
        ],
        seq![
            ("Copy"@, "win.copy"@),
            ("Cut"@, "win.cut"@),
            ("Paste"@, "win.paste"@),
            ("Copy Path"@, "win.copy-path"@),
            ("Rename"@, "win.rename"@),
            ("Select All"@, "win.select-all"@),
        ],
        seq![
            ("Open in New Tab"@, "win.open-in-new-tab"@),
            ("Bookmark This Folder"@, "win.add-bookmark"@),
        ],
        seq![
            ("Search..."@, "win.search"@),
            ("Batch Rename..."@, "win.batch-rename"@),
            ("Extract Archive"@, "win.extract-archive"@),
            ("Compress..."@, "win.compress"@),
            ("Tags & Colors..."@, "win.edit-tags"@),
        ],
        seq![
            ("Move to Trash"@, "win.trash"@),
        ],
    ]
}

/// The entries of one menu section as texts.
pub open spec fn entries_view(v: Seq<(String, String)>) -> Seq<(Seq<char>, Seq<char>)> {
    v.map_values(|e: (String, String)| (e.0@, e.1@))
}

/// The plugin section of the context menu: each action's label, running
/// "win.plugin-" and its name.
pub open spec fn plugin_entries(actions: Seq<PluginAction>) -> Seq<(Seq<char>, Seq<char>)> {
    actions.map_values(|a: PluginAction| (a.label@, "win.plugin-"@ + a.name@))
}

fn section(items: Vec<(&str, &str)>) -> (res: Vec<(String, String)>)
    ensures
        entries_view(res@) == items@.map_values(|e: (&str, &str)| (e.0@, e.1@)),
{
    let mut res: Vec<(String, String)> = Vec::new();
    let mut i: usize = 0;
    while i < items.len()
        invariant
            i <= items.len(),
            entries_view(res@) == items@.map_values(|e: (&str, &str)| (e.0@, e.1@)).take(i as int),
        decreases items.len() - i,
    {
        let (l, a) = items[i];
        let ghost prev = entries_view(res@);
        res.push((owned(l), owned(a)));
        assert(entries_view(res@) =~= prev.push((l@, a@)));
        assert(items@.map_values(|e: (&str, &str)| (e.0@, e.1@)).take(i + 1)
            =~= items@.map_values(|e: (&str, &str)| (e.0@, e.1@)).take(i as int).push((l@, a@)));
        i += 1;
    }
    assert(items@.map_values(|e: (&str, &str)| (e.0@, e.1@)).take(items.len() as int)
        =~= items@.map_values(|e: (&str, &str)| (e.0@, e.1@)));
    res
}

/// The last section of the context menu.
pub open spec fn info_section() -> Seq<(Seq<char>, Seq<char>)> {
    seq![("Properties"@, "win.properties"@)]
}

/// The sections of the context menu, in order: the fixed ones, the plugin
/// actions when any are registered, then the properties entry.
pub fn context_menu(actions: &Vec<PluginAction>) -> (res: Vec<Vec<(String, String)>>)
    ensures
        res@.map_values(|s: Vec<(String, String)>| entries_view(s@)) == if actions@.len() == 0 {
            menu_sections().push(info_section())
        } else {
            menu_sections().push(plugin_entries(actions@)).push(info_section())
        },
{
    let s0 = section(vec![
        ("New Folder", "win.new-folder"),
        ("Open Terminal Here", "win.open-terminal"),
        ("Open With...", "win.open-with"),
    ]);
    assert(entries_view(s0@) =~= menu_sections()[0]);
    let s1 = section(vec![
        ("Copy", "win.copy"),
        ("Cut", "win.cut"),
        ("Paste", "win.paste"),
        ("Copy Path", "win.copy-path"),
        ("Rename", "win.rename"),
        ("Select All", "win.select-all"),
    ]);
    assert(entries_view(s1@) =~= menu_sections()[1]);
    let s2 = section(vec![
        ("Open in New Tab", "win.open-in-new-tab"),
        ("Bookmark This Folder", "win.add-bookmark"),
    ]);
    assert(entries_view(s2@) =~= menu_sections()[2]);
    let s3 = section(vec![
        ("Search...", "win.search"),
        ("Batch Rename...", "win.batch-rename"),
        ("Extract Archive", "win.extract-archive"),
        ("Compress...", "win.compress"),
        ("Tags & Colors...", "win.edit-tags"),
    ]);
    assert(entries_view(s3@) =~= menu_sections()[3]);
    let s4 = section(vec![("Move to Trash", "win.trash")]);
    assert(entries_view(s4@) =~= menu_sections()[4]);
    let mut res: Vec<Vec<(String, String)>> = Vec::new();
    res.push(s0);
    res.push(s1);
    res.push(s2);
    res.push(s3);
    res.push(s4);
    assert(res@.map_values(|s: Vec<(String, String)>| entries_view(s@)) =~= menu_sections());
    if actions.len() > 0 {
        let mut plugins: Vec<(String, String)> = Vec::new();
        let mut i: usize = 0;
        while i < actions.len()
            invariant
                i <= actions.len(),
                entries_view(plugins@) == plugin_entries(actions@).take(i as int),
            decreases actions.len() - i,
        {
            let ghost prev = entries_view(plugins@);
            let id = concat2("win.plugin-", actions[i].name.as_str());
            let label = owned(actions[i].label.as_str());
            plugins.push((label, id));
            assert(entries_view(plugins@) =~= prev.push(plugin_entries(actions@)[i as int]));
            assert(plugin_entries(actions@).take(i + 1) =~= plugin_entries(actions@).take(i as int).push(plugin_entries(actions@)[i as int]));
            i += 1;
        }
        assert(plugin_entries(actions@).take(actions.len() as int) =~= plugin_entries(actions@));
        let ghost prev = res@.map_values(|s: Vec<(String, String)>| entries_view(s@));
        res.push(plugins);
        assert(res@.map_values(|s: Vec<(String, String)>| entries_view(s@)) =~= prev.push(plugin_entries(actions@)));
    }
    let info = section(vec![("Properties", "win.properties")]);
    assert(entries_view(info@) =~= info_section());
    let ghost before = res@.map_values(|s: Vec<(String, String)>| entries_view(s@));
    res.push(info);
    assert(res@.map_values(|s: Vec<(String, String)>| entries_view(s@)) =~= before.push(info_section()));
    res
}

} // verus!
