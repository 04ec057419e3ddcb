//! Keyboard shortcuts: the built-in table, the optional Vim keys and the
//! user's overrides.
use vstd::prelude::*;
use crate::text::{owned, concat2, same_text};

verus! {

/// Whether Vim keys are on, and the user's overrides as (action, key) pairs;
/// like the map they are read from, the overrides name each action once.
pub struct KeybindingConfig {
    pub vim_mode: bool,
    pub custom_bindings: Vec<(String, String)>,
}

impl Default for KeybindingConfig {
    /// Vim keys off, no overrides.
    fn default() -> (res: Self)
        ensures
            !res.vim_mode,
            res.custom_bindings@.len() == 0,
    {
        KeybindingConfig { vim_mode: false, custom_bindings: Vec::new() }
    }
}

/// The Vim keys as (key, action) pairs.
pub open spec fn vim_table() -> Seq<(Seq<char>, Seq<char>)> {
    seq![
        ("h"@, "win.go-up"@),
        ("l"@, "win.activate-item"@),
        ("j"@, "win.select-next"@),
        ("k"@, "win.select-prev"@),
        ("g"@, "win.go-first"@),
        ("<Shift>g"@, "win.go-last"@),
        ("d"@, "win.trash"@),
        ("y"@, "win.copy"@),
        ("p"@, "win.paste"@),
        ("r"@, "win.rename"@),
        ("slash"@, "win.toggle-filter"@),
        ("period"@, "win.toggle-hidden"@),
        ("t"@, "win.new-tab"@),
        ("x"@, "win.cut"@),
        ("o"@, "win.open-terminal"@),
        ("i"@, "win.properties"@),
        ("<Shift>question"@, "win.show-shortcuts"@),
    ]
}

impl KeybindingConfig {
    /// The standard Vim keys for navigation and selection.
    pub fn vim_shortcuts() -> (res: Vec<(&'static str, &'static str)>)
        ensures
            res@.map_values(|p: (&str, &str)| (p.0@, p.1@)) == vim_table(),
    {
        let res = vec![
            ("h", "win.go-up"),
            ("l", "win.activate-item"),
            ("j", "win.select-next"),
            ("k", "win.select-prev"),
            ("g", "win.go-first"),
            ("<Shift>g", "win.go-last"),
            ("d", "win.trash"),
            ("y", "win.copy"),
            ("p", "win.paste"),
            ("r", "win.rename"),
            ("slash", "win.toggle-filter"),
            ("period", "win.toggle-hidden"),
            ("t", "win.new-tab"),
            ("x", "win.cut"),
            ("o", "win.open-terminal"),
            ("i", "win.properties"),
            ("<Shift>question", "win.show-shortcuts"),
        ];
        assert(res@.map_values(|p: (&str, &str)| (p.0@, p.1@)) =~= vim_table());
        res
    }
}

} // verus!

verus! {

/// The built-in shortcuts as (key, action) pairs.
pub open spec fn default_table() -> Seq<(Seq<char>, Seq<char>)> {
    seq![
        ("<Control>c"@, "win.copy"@),
        ("<Control>x"@, "win.cut"@),
        ("<Control>v"@, "win.paste"@),
        ("<Control><Shift>c"@, "win.copy-path"@),
        ("<Control>a"@, "win.select-all"@),
        ("<Control>i"@, "win.invert-selection"@),
        ("Delete"@, "win.trash"@),
        ("F2"@, "win.rename"@),
        ("<Control>h"@, "win.toggle-hidden"@),
        ("<Control>l"@, "win.location-bar"@),
        ("<Control>f"@, "win.toggle-filter"@),
        ("<Alt>Left"@, "win.go-back"@),
        ("<Alt>Right"@, "win.go-forward"@),
        ("<Alt>Up"@, "win.go-up"@),
        ("BackSpace"@, "win.go-back"@),
        ("<Control>plus"@, "win.zoom-in"@),
        ("<Control>equal"@, "win.zoom-in"@),
        ("<Control>minus"@, "win.zoom-out"@),
        ("<Control>0"@, "win.zoom-reset"@),
        ("<Alt>Return"@, "win.properties"@),
        ("<Control><Alt>t"@, "win.open-terminal"@),
        ("<Control>comma"@, "win.preferences"@),
        ("<Control>d"@, "win.add-bookmark"@),
        ("<Control>t"@, "win.new-tab"@),
        ("<Control>w"@, "win.close-tab"@),
        ("F4"@, "win.toggle-terminal"@),
        ("F3"@, "win.toggle-dual-pane"@),
        ("F5"@, "win.toggle-miller"@),
        ("F6"@, "win.copy-to-other-pane"@),
        ("<Shift>F6"@, "win.move-to-other-pane"@),
        ("Tab"@, "win.swap-pane"@),
        ("F1"@, "win.show-guide"@),
        ("Return"@, "win.activate-item"@),
        ("<Control><Shift>f"@, "win.search"@),
        ("space"@, "win.toggle-preview"@),
    ]
}

/// The built-in shortcuts of the main window.
pub fn default_shortcuts() -> (res: Vec<(&'static str, &'static str)>)
    ensures
        res@.map_values(|p: (&str, &str)| (p.0@, p.1@)) == default_table(),
{
    let res = vec![
        ("<Control>c", "win.copy"),
        ("<Control>x", "win.cut"),
        ("<Control>v", "win.paste"),
        ("<Control><Shift>c", "win.copy-path"),
        ("<Control>a", "win.select-all"),
        ("<Control>i", "win.invert-selection"),
        ("Delete", "win.trash"),
        ("F2", "win.rename"),
        ("<Control>h", "win.toggle-hidden"),
        ("<Control>l", "win.location-bar"),
        ("<Control>f", "win.toggle-filter"),
        ("<Alt>Left", "win.go-back"),
        ("<Alt>Right", "win.go-forward"),
        ("<Alt>Up", "win.go-up"),
        ("BackSpace", "win.go-back"),
        ("<Control>plus", "win.zoom-in"),
        ("<Control>equal", "win.zoom-in"),
        ("<Control>minus", "win.zoom-out"),
        ("<Control>0", "win.zoom-reset"),
        ("<Alt>Return", "win.properties"),
        ("<Control><Alt>t", "win.open-terminal"),
        ("<Control>comma", "win.preferences"),
        ("<Control>d", "win.add-bookmark"),
        ("<Control>t", "win.new-tab"),
        ("<Control>w", "win.close-tab"),
        ("F4", "win.toggle-terminal"),
        ("F3", "win.toggle-dual-pane"),
        ("F5", "win.toggle-miller"),
        ("F6", "win.copy-to-other-pane"),
        ("<Shift>F6", "win.move-to-other-pane"),
        ("Tab", "win.swap-pane"),
        ("F1", "win.show-guide"),
        ("Return", "win.activate-item"),
        ("<Control><Shift>f", "win.search"),
        ("space", "win.toggle-preview"),
    ];
    assert(res@.map_values(|p: (&str, &str)| (p.0@, p.1@)) =~= default_table());
    res
}

/// The user's overrides as (key, action) pairs: each (action, key) of the
/// configuration becomes (key, "win." + action).
pub open spec fn override_table(custom: Seq<(Seq<char>, Seq<char>)>) -> Seq<(Seq<char>, Seq<char>)> {
    custom.map_values(|p: (Seq<char>, Seq<char>)| (p.1, "win."@ + p.0))
}

/// Whether some override is bound to `action`.
pub open spec fn is_overridden(action: Seq<char>, overrides: Seq<(Seq<char>, Seq<char>)>) -> bool {
    exists|i: int| 0 <= i < overrides.len() && #[trigger] overrides[i].1 == action
}

/// The entries of `base` whose action no override takes.
pub open spec fn not_overridden(
    base: Seq<(Seq<char>, Seq<char>)>,
    overrides: Seq<(Seq<char>, Seq<char>)>,
) -> Seq<(Seq<char>, Seq<char>)>
    decreases base.len(),
{
    if base.len() == 0 {
        base
    } else {
        let rest = not_overridden(base.drop_last(), overrides);
        if is_overridden(base.last().1, overrides) {
            rest
        } else {
            rest.push(base.last())
        }
    }
}

/// The shortcuts in force: the built-in ones, then the Vim keys when they
/// are on, each dropped when an override takes its action; then the
/// overrides.
pub open spec fn shortcut_table(vim_mode: bool, custom: Seq<(Seq<char>, Seq<char>)>) -> Seq<(Seq<char>, Seq<char>)> {
    let base = if vim_mode { default_table() + vim_table() } else { default_table() };
    not_overridden(base, override_table(custom)) + override_table(custom)
}

/// No action has two overrides.
pub open spec fn actions_distinct(custom: Seq<(Seq<char>, Seq<char>)>) -> bool {
    forall|i: int, j: int| 0 <= i < j < custom.len() ==> #[trigger] custom[i].0 != #[trigger] custom[j].0
}

impl KeybindingConfig {
    /// Whether the overrides name each action once, as a map of them does.
    pub fn has_distinct_actions(&self) -> (res: bool)
        ensures
            res == actions_distinct(self.custom_bindings@.map_values(|p: (String, String)| (p.0@, p.1@))),
    {
        let ghost custom = self.custom_bindings@.map_values(|p: (String, String)| (p.0@, p.1@));
        let n = self.custom_bindings.len();
        let mut j: usize = 0;
        while j < n
            invariant
                n == self.custom_bindings.len(),
                custom == self.custom_bindings@.map_values(|p: (String, String)| (p.0@, p.1@)),
                j <= n,
                forall|a: int, b: int| 0 <= a < b < j ==> #[trigger] custom[a].0 != #[trigger] custom[b].0,
            decreases n - j,
        {
            let mut i: usize = 0;
            while i < j
                invariant
                    n == self.custom_bindings.len(),
                    custom == self.custom_bindings@.map_values(|p: (String, String)| (p.0@, p.1@)),
                    i <= j < n,
                    forall|a: int| 0 <= a < i ==> #[trigger] custom[a].0 != custom[j as int].0,
                decreases j - i,
            {
                if same_text(self.custom_bindings[i].0.as_str(), self.custom_bindings[j].0.as_str()) {
                    assert(custom[i as int].0 == custom[j as int].0);
                    return false;
                }
                i += 1;
            }
            j += 1;
        }
        true
    }

    /// The shortcuts in force under this configuration, as (key, action)
    /// pairs in the order they are installed.
    pub fn shortcuts(&self) -> (res: Vec<(String, String)>)
        requires
            actions_distinct(self.custom_bindings@.map_values(|p: (String, String)| (p.0@, p.1@))),
        ensures
            res@.map_values(|p: (String, String)| (p.0@, p.1@)) == shortcut_table(
                self.vim_mode,
                self.custom_bindings@.map_values(|p: (String, String)| (p.0@, p.1@)),
            ),
    {
        let ghost custom = self.custom_bindings@.map_values(|p: (String, String)| (p.0@, p.1@));
        let ghost ov = override_table(custom);
        // the overrides, as (key, "win." + action)
        let mut overrides: Vec<(String, String)> = Vec::new();
        let mut i: usize = 0;
        while i < self.custom_bindings.len()
            invariant
                i <= self.custom_bindings.len(),
                custom == self.custom_bindings@.map_values(|p: (String, String)| (p.0@, p.1@)),
                ov == override_table(custom),
                overrides@.map_values(|p: (String, String)| (p.0@, p.1@)) == ov.take(i as int),
            decreases self.custom_bindings.len() - i,
        {
            let key = owned(self.custom_bindings[i].1.as_str());
            let action = concat2("win.", self.custom_bindings[i].0.as_str());
            let ghost pair = (key@, action@);
            let ghost before = overrides@.map_values(|p: (String, String)| (p.0@, p.1@));
            overrides.push((key, action));
            assert(overrides@.map_values(|p: (String, String)| (p.0@, p.1@)) =~= before.push(pair));
            assert(ov.take(i + 1) =~= ov.take(i as int).push(pair));
            i += 1;
        }
        assert(ov.take(i as int) =~= ov);
        let mut base = default_shortcuts();
        if self.vim_mode {
            let mut vim = KeybindingConfig::vim_shortcuts();
            base.append(&mut vim);
        }
        let ghost base_view = base@.map_values(|p: (&str, &str)| (p.0@, p.1@));
        assert(base_view =~= (if self.vim_mode { default_table() + vim_table() } else { default_table() }));
        let mut res: Vec<(String, String)> = Vec::new();
        let mut k: usize = 0;
        while k < base.len()
            invariant
                k <= base.len(),
                base_view == base@.map_values(|p: (&str, &str)| (p.0@, p.1@)),
                overrides@.map_values(|p: (String, String)| (p.0@, p.1@)) == ov,
                res@.map_values(|p: (String, String)| (p.0@, p.1@)) == not_overridden(base_view.take(k as int), ov),
            decreases base.len() - k,
        {
            let (key, action) = base[k];
            let taken = action_taken(action, &overrides);
            let ghost before = res@.map_values(|p: (String, String)| (p.0@, p.1@));
            assert(base_view.take(k + 1).drop_last() =~= base_view.take(k as int));
            assert(base_view.take(k + 1).last() == (key@, action@));
            if !taken {
                res.push((owned(key), owned(action)));
                assert(res@.map_values(|p: (String, String)| (p.0@, p.1@)) =~= before.push((key@, action@)));
            }
            k += 1;
        }
        assert(base_view.take(k as int) =~= base_view);
        let ghost kept = res@.map_values(|p: (String, String)| (p.0@, p.1@));
        let mut j: usize = 0;
        while j < overrides.len()
            invariant
                j <= overrides.len(),
                overrides@.map_values(|p: (String, String)| (p.0@, p.1@)) == ov,
                res@.map_values(|p: (String, String)| (p.0@, p.1@)) == kept + ov.take(j as int),
            decreases overrides.len() - j,
        {
            let key = overrides[j].0.clone();
            let action = overrides[j].1.clone();
            let ghost before = res@.map_values(|p: (String, String)| (p.0@, p.1@));
            assert(ov[j as int] == (key@, action@));
            res.push((key, action));
            assert(res@.map_values(|p: (String, String)| (p.0@, p.1@)) =~= before.push(ov[j as int]));
            assert(ov.take(j + 1) =~= ov.take(j as int).push(ov[j as int]));
            j += 1;
        }
        assert(ov.take(j as int) =~= ov);
        res
    }
}

/// Whether one of `overrides` is bound to `action`.
fn action_taken(action: &str, overrides: &Vec<(String, String)>) -> (res: bool)
    ensures
        res == is_overridden(action@, overrides@.map_values(|p: (String, String)| (p.0@, p.1@))),
{
    let ghost ov = overrides@.map_values(|p: (String, String)| (p.0@, p.1@));
    let mut i: usize = 0;
    while i < overrides.len()
        invariant
            i <= overrides.len(),
            ov == overrides@.map_values(|p: (String, String)| (p.0@, p.1@)),
            forall|j: int| 0 <= j < i ==> ov[j].1 != action@,
        decreases overrides.len() - i,
    {
        if same_text(overrides[i].1.as_str(), action) {
            assert(ov[i as int].1 == action@);
            return true;
        }
        i += 1;
    }
    false
}

/// An action that some override takes has no other key: every shortcut
/// in force for it is one of the overrides.
pub proof fn lemma_overrides_replace_defaults(vim_mode: bool, custom: Seq<(Seq<char>, Seq<char>)>, i: int)
    requires
        0 <= i < shortcut_table(vim_mode, custom).len(),
        is_overridden(shortcut_table(vim_mode, custom)[i].1, override_table(custom)),
    ensures
        i >= shortcut_table(vim_mode, custom).len() - custom.len(),
{
    let ov = override_table(custom);
    let base = if vim_mode { default_table() + vim_table() } else { default_table() };
    lemma_not_overridden_keeps(base, ov);
    let kept = not_overridden(base, ov);
    if i < kept.len() {
        assert(shortcut_table(vim_mode, custom)[i] == kept[i]);
    }
}

/// No entry kept from `base` has an overridden action.
pub proof fn lemma_not_overridden_keeps(base: Seq<(Seq<char>, Seq<char>)>, ov: Seq<(Seq<char>, Seq<char>)>)
    ensures
        forall|i: int| 0 <= i < not_overridden(base, ov).len() ==>
            !is_overridden(#[trigger] not_overridden(base, ov)[i].1, ov),
        not_overridden(base, ov).len() <= base.len(),
    decreases base.len(),
{
    if base.len() > 0 {
        lemma_not_overridden_keeps(base.drop_last(), ov);
    }
}

} // verus!

verus! {

proof fn lemma_no_overrides_keep(base: Seq<(Seq<char>, Seq<char>)>)
    ensures
        not_overridden(base, Seq::empty()) == base,
    decreases base.len(),
{
    if base.len() > 0 {
        lemma_no_overrides_keep(base.drop_last());
        assert(!is_overridden(base.last().1, Seq::empty()));
        assert(base.drop_last().push(base.last()) =~= base);
    }
}

/// Without overrides the shortcuts in force are the built-in ones, followed
/// by the Vim keys when they are on; the built-in table binds each action
/// to the key the application documents for it (Ctrl+V pastes, Delete
/// trashes, ...), 35 bindings in all, and the Vim table binds its
/// 17 keys likewise.
pub proof fn lemma_default_bindings()
    ensures
        shortcut_table(false, Seq::empty()) == default_table(),
        shortcut_table(true, Seq::empty()) == default_table() + vim_table(),
        default_table().len() == 35,
        vim_table().len() == 17,
        default_table().contains(("<Control>c"@, "win.copy"@)),
        default_table().contains(("<Control>x"@, "win.cut"@)),
        default_table().contains(("<Control>v"@, "win.paste"@)),
        default_table().contains(("<Control><Shift>c"@, "win.copy-path"@)),
        default_table().contains(("<Control>a"@, "win.select-all"@)),
        default_table().contains(("<Control>i"@, "win.invert-selection"@)),
        default_table().contains(("Delete"@, "win.trash"@)),
        default_table().contains(("F2"@, "win.rename"@)),
        default_table().contains(("<Control>h"@, "win.toggle-hidden"@)),
        default_table().contains(("<Control>l"@, "win.location-bar"@)),
        default_table().contains(("<Control>f"@, "win.toggle-filter"@)),
        default_table().contains(("<Alt>Left"@, "win.go-back"@)),
        default_table().contains(("<Alt>Right"@, "win.go-forward"@)),
        default_table().contains(("<Alt>Up"@, "win.go-up"@)),
        default_table().contains(("BackSpace"@, "win.go-back"@)),
        default_table().contains(("<Control>plus"@, "win.zoom-in"@)),
        default_table().contains(("<Control>equal"@, "win.zoom-in"@)),
        default_table().contains(("<Control>minus"@, "win.zoom-out"@)),
        default_table().contains(("<Control>0"@, "win.zoom-reset"@)),
        default_table().contains(("<Alt>Return"@, "win.properties"@)),
        default_table().contains(("<Control><Alt>t"@, "win.open-terminal"@)),
        default_table().contains(("<Control>comma"@, "win.preferences"@)),
        default_table().contains(("<Control>d"@, "win.add-bookmark"@)),
        default_table().contains(("<Control>t"@, "win.new-tab"@)),
        default_table().contains(("<Control>w"@, "win.close-tab"@)),
        default_table().contains(("F4"@, "win.toggle-terminal"@)),
        default_table().contains(("F3"@, "win.toggle-dual-pane"@)),
        default_table().contains(("F5"@, "win.toggle-miller"@)),
        default_table().contains(("F6"@, "win.copy-to-other-pane"@)),
        default_table().contains(("<Shift>F6"@, "win.move-to-other-pane"@)),
        default_table().contains(("Tab"@, "win.swap-pane"@)),
        default_table().contains(("F1"@, "win.show-guide"@)),
        default_table().contains(("Return"@, "win.activate-item"@)),
        default_table().contains(("<Control><Shift>f"@, "win.search"@)),
        default_table().contains(("space"@, "win.toggle-preview"@)),
        vim_table().contains(("h"@, "win.go-up"@)),
        vim_table().contains(("l"@, "win.activate-item"@)),
        vim_table().contains(("j"@, "win.select-next"@)),
        vim_table().contains(("k"@, "win.select-prev"@)),
        vim_table().contains(("g"@, "win.go-first"@)),
        vim_table().contains(("<Shift>g"@, "win.go-last"@)),
        vim_table().contains(("d"@, "win.trash"@)),
        vim_table().contains(("y"@, "win.copy"@)),
        vim_table().contains(("p"@, "win.paste"@)),
        vim_table().contains(("r"@, "win.rename"@)),
        vim_table().contains(("slash"@, "win.toggle-filter"@)),
        vim_table().contains(("period"@, "win.toggle-hidden"@)),
        vim_table().contains(("t"@, "win.new-tab"@)),
        vim_table().contains(("x"@, "win.cut"@)),
        vim_table().contains(("o"@, "win.open-terminal"@)),
        vim_table().contains(("i"@, "win.properties"@)),
        vim_table().contains(("<Shift>question"@, "win.show-shortcuts"@)),
{
    lemma_no_overrides_keep(default_table());
    lemma_no_overrides_keep(default_table() + vim_table());
    assert(override_table(Seq::empty()) =~= Seq::empty());
    assert(default_table() + Seq::<(Seq<char>, Seq<char>)>::empty() =~= default_table());
    assert(default_table() + vim_table() + Seq::<(Seq<char>, Seq<char>)>::empty() =~= default_table() + vim_table());
    assert(default_table()[0] == ("<Control>c"@, "win.copy"@));
    assert(default_table()[1] == ("<Control>x"@, "win.cut"@));
    assert(default_table()[2] == ("<Control>v"@, "win.paste"@));
    assert(default_table()[3] == ("<Control><Shift>c"@, "win.copy-path"@));
    assert(default_table()[4] == ("<Control>a"@, "win.select-all"@));
    assert(default_table()[5] == ("<Control>i"@, "win.invert-selection"@));
    assert(default_table()[6] == ("Delete"@, "win.trash"@));
    assert(default_table()[7] == ("F2"@, "win.rename"@));
    assert(default_table()[8] == ("<Control>h"@, "win.toggle-hidden"@));
    assert(default_table()[9] == ("<Control>l"@, "win.location-bar"@));
    assert(default_table()[10] == ("<Control>f"@, "win.toggle-filter"@));
    assert(default_table()[11] == ("<Alt>Left"@, "win.go-back"@));
    assert(default_table()[12] == ("<Alt>Right"@, "win.go-forward"@));
    assert(default_table()[13] == ("<Alt>Up"@, "win.go-up"@));
    assert(default_table()[14] == ("BackSpace"@, "win.go-back"@));
    assert(default_table()[15] == ("<Control>plus"@, "win.zoom-in"@));
    assert(default_table()[16] == ("<Control>equal"@, "win.zoom-in"@));
    assert(default_table()[17] == ("<Control>minus"@, "win.zoom-out"@));
    assert(default_table()[18] == ("<Control>0"@, "win.zoom-reset"@));
    assert(default_table()[19] == ("<Alt>Return"@, "win.properties"@));
    assert(default_table()[20] == ("<Control><Alt>t"@, "win.open-terminal"@));
    assert(default_table()[21] == ("<Control>comma"@, "win.preferences"@));
    assert(default_table()[22] == ("<Control>d"@, "win.add-bookmark"@));
    assert(default_table()[23] == ("<Control>t"@, "win.new-tab"@));
    assert(default_table()[24] == ("<Control>w"@, "win.close-tab"@));
    assert(default_table()[25] == ("F4"@, "win.toggle-terminal"@));
    assert(default_table()[26] == ("F3"@, "win.toggle-dual-pane"@));
    assert(default_table()[27] == ("F5"@, "win.toggle-miller"@));
    assert(default_table()[28] == ("F6"@, "win.copy-to-other-pane"@));
    assert(default_table()[29] == ("<Shift>F6"@, "win.move-to-other-pane"@));
    assert(default_table()[30] == ("Tab"@, "win.swap-pane"@));
    assert(default_table()[31] == ("F1"@, "win.show-guide"@));
    assert(default_table()[32] == ("Return"@, "win.activate-item"@));
    assert(default_table()[33] == ("<Control><Shift>f"@, "win.search"@));
    assert(default_table()[34] == ("space"@, "win.toggle-preview"@));
    assert(vim_table()[0] == ("h"@, "win.go-up"@));
    assert(vim_table()[1] == ("l"@, "win.activate-item"@));
    assert(vim_table()[2] == ("j"@, "win.select-next"@));
    assert(vim_table()[3] == ("k"@, "win.select-prev"@));
    assert(vim_table()[4] == ("g"@, "win.go-first"@));
    assert(vim_table()[5] == ("<Shift>g"@, "win.go-last"@));
    assert(vim_table()[6] == ("d"@, "win.trash"@));
    assert(vim_table()[7] == ("y"@, "win.copy"@));
    assert(vim_table()[8] == ("p"@, "win.paste"@));
    assert(vim_table()[9] == ("r"@, "win.rename"@));
    assert(vim_table()[10] == ("slash"@, "win.toggle-filter"@));
    assert(vim_table()[11] == ("period"@, "win.toggle-hidden"@));
    assert(vim_table()[12] == ("t"@, "win.new-tab"@));
    assert(vim_table()[13] == ("x"@, "win.cut"@));
    assert(vim_table()[14] == ("o"@, "win.open-terminal"@));
    assert(vim_table()[15] == ("i"@, "win.properties"@));
    assert(vim_table()[16] == ("<Shift>question"@, "win.show-shortcuts"@));
}

} // verus!

verus! {

/// Every override is in force: the user's key for an action is bound to
/// that action of the window, whatever the built-in and Vim tables say.
pub proof fn lemma_overrides_in_force(vim_mode: bool, custom: Seq<(Seq<char>, Seq<char>)>, i: int)
    requires
        0 <= i < custom.len(),
    ensures
        shortcut_table(vim_mode, custom).contains((custom[i].1, "win."@ + custom[i].0)),
{
    let base = if vim_mode { default_table() + vim_table() } else { default_table() };
    let kept = not_overridden(base, override_table(custom));
    assert(shortcut_table(vim_mode, custom)[kept.len() + i] == override_table(custom)[i]);
}

} // verus!
