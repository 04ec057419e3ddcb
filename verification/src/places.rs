//! The sidebar's places: saved bookmarks, recently used network locations,
//! the URI a connection form describes, and the icon chosen for a mount.
use vstd::prelude::*;
use crate::lines::{views, join, join_text, nonempty_lines, nonempty_only, text_lines};
use crate::paths::{same_path, paths_equal, joined, path_join};
use crate::text::{owned, same_text, ends_with, has_suffix};

verus! {

/// `s` without the paths that equal `p` component by component.
pub open spec fn without_path(s: Seq<Seq<char>>, p: Seq<char>) -> Seq<Seq<char>>
    decreases s.len(),
{
    if s.len() == 0 {
        Seq::empty()
    } else {
        let pre = without_path(s.drop_last(), p);
        if same_path(s.last(), p) {
            pre
        } else {
            pre.push(s.last())
        }
    }
}

/// Whether some path of `s` equals `p` component by component.
pub open spec fn holds_path(s: Seq<Seq<char>>, p: Seq<char>) -> bool {
    exists|i: int| 0 <= i < s.len() && same_path(#[trigger] s[i], p)
}

/// The bookmarked directories, in the order they were added.
pub struct Bookmarks {
    pub paths: Vec<String>,
}

impl Bookmarks {
    /// The bookmarked paths as texts.
    pub open spec fn view(&self) -> Seq<Seq<char>> {
        views(self.paths@)
    }

    /// The bookmarks read from the text of the bookmark file: its non-empty
    /// lines, in order.
    pub fn from_file_text(contents: &str) -> (res: Bookmarks)
        ensures
            res.view() == nonempty_only(text_lines(contents@)),
    {
        Bookmarks { paths: nonempty_lines(contents) }
    }

    /// The text of the bookmark file: one path per line.
    pub fn file_text(&self) -> (res: String)
        ensures
            res@ == join_text(self.view(), seq!['\n']),
    {
        let sep = "\n";
        proof {
            reveal_strlit("\n");
            assert(sep@ =~= seq!['\n']);
        }
        join(&self.paths, sep)
    }

    /// Whether some bookmark names the same path as `path`.
    pub fn contains(&self, path: &str) -> (res: bool)
        ensures
            res == holds_path(self.view(), path@),
    {
        let mut i: usize = 0;
        while i < self.paths.len()
            invariant
                i <= self.paths.len(),
                forall|j: int| 0 <= j < i ==> !same_path(#[trigger] self.view()[j], path@),
            decreases self.paths.len() - i,
        {
            if paths_equal(self.paths[i].as_str(), path) {
                assert(same_path(self.view()[i as int], path@));
                return true;
            }
            i += 1;
        }
        false
    }

    /// Adds `path` at the end unless a bookmark already names it; answers
    /// whether it was added.
    pub fn add_bookmark(&mut self, path: &str) -> (added: bool)
        ensures
            added == !holds_path(old(self).view(), path@),
            added ==> final(self).view() == old(self).view().push(path@),
            !added ==> final(self).view() == old(self).view(),
    {
        if self.contains(path) {
            return false;
        }
        let ghost before = self.view();
        self.paths.push(owned(path));
        assert(self.view() =~= before.push(path@));
        true
    }

    /// Removes every bookmark that names the same path as `path`.
    pub fn remove_bookmark(&mut self, path: &str)
        ensures
            final(self).view() == without_path(old(self).view(), path@),
    {
        let mut kept: Vec<String> = Vec::new();
        let mut i: usize = 0;
        while i < self.paths.len()
            invariant
                i <= self.paths.len(),
                views(kept@) == without_path(self.view().take(i as int), path@),
            decreases self.paths.len() - i,
        {
            let p = self.paths[i].clone();
            proof {
                assert(self.view().take(i + 1).drop_last() =~= self.view().take(i as int));
                assert(self.view().take(i + 1).last() == p@);
            }
            if !paths_equal(p.as_str(), path) {
                let ghost prev = views(kept@);
                kept.push(p);
                assert(views(kept@) =~= prev.push(self.view()[i as int]));
            }
            i += 1;
        }
        assert(self.view().take(self.paths.len() as int) =~= self.view());
        self.paths = kept;
    }
}

/// No path that equals `p` is left after removing `p`.
pub proof fn lemma_removed_is_gone(s: Seq<Seq<char>>, p: Seq<char>)
    ensures
        !holds_path(without_path(s, p), p),
    decreases s.len(),
{
    if s.len() > 0 {
        lemma_removed_is_gone(s.drop_last(), p);
        let pre = without_path(s.drop_last(), p);
        if !same_path(s.last(), p) {
            assert forall|i: int| 0 <= i < pre.push(s.last()).len()
                implies !same_path(#[trigger] pre.push(s.last())[i], p) by {
                if i < pre.len() {
                    assert(pre.push(s.last())[i] == pre[i]);
                }
            }
        }
    }
}

/// Removing a path keeps the other bookmarks in their order: what remains
/// is exactly the bookmarks that name another path.
pub proof fn lemma_remove_keeps_others(s: Seq<Seq<char>>, p: Seq<char>, q: Seq<char>)
    requires
        !same_path(q, p),
    ensures
        without_path(s, p).contains(q) == s.contains(q),
    decreases s.len(),
{
    if s.len() > 0 {
        lemma_remove_keeps_others(s.drop_last(), p, q);
        let pre = without_path(s.drop_last(), p);
        assert(s =~= s.drop_last().push(s.last()));
        if s.contains(q) {
            let k = choose|k: int| 0 <= k < s.len() && s[k] == q;
            if k < s.len() - 1 {
                assert(s.drop_last()[k] == q);
            }
        }
        if s.drop_last().contains(q) {
            let k = choose|k: int| 0 <= k < s.drop_last().len() && s.drop_last()[k] == q;
            assert(s[k] == q);
        }
        if !same_path(s.last(), p) {
            assert(pre.push(s.last())[pre.len() as int] == s.last());
            if pre.contains(q) {
                let k = choose|k: int| 0 <= k < pre.len() && pre[k] == q;
                assert(pre.push(s.last())[k] == q);
            }
            if pre.push(s.last()).contains(q) {
                let k = choose|k: int| 0 <= k < pre.push(s.last()).len() && pre.push(s.last())[k] == q;
                if k < pre.len() {
                    assert(pre[k] == q);
                }
            }
        }
    }
}

/// Adding a bookmark and removing it again leaves the bookmarks that remain
/// after removing it from the list before.
pub proof fn lemma_add_then_remove(s: Seq<Seq<char>>, p: Seq<char>)
    requires
        same_path(p, p),
    ensures
        without_path(s.push(p), p) == without_path(s, p),
{
    assert(s.push(p).drop_last() =~= s);
}

/// The test that keeps the entries other than `uri`.
pub open spec fn other_than(uri: Seq<char>) -> spec_fn(Seq<char>) -> bool {
    |u: Seq<char>| u != uri
}

/// The list of recent network locations after connecting to `uri`: `uri`
/// first, then the earlier entries other than `uri`, at most ten in all.
pub open spec fn remembered(recent: Seq<Seq<char>>, uri: Seq<char>) -> Seq<Seq<char>> {
    let rest = recent.filter(other_than(uri));
    let all = seq![uri] + rest;
    if all.len() > 10 {
        all.take(10)
    } else {
        all
    }
}

/// `recent` without the entries equal to `uri`.
fn others(recent: &Vec<String>, uri: &str) -> (res: Vec<String>)
    ensures
        views(res@) == views(recent@).filter(other_than(uri@)),
{
    let mut res: Vec<String> = Vec::new();
    let mut i: usize = 0;
    while i < recent.len()
        invariant
            i <= recent.len(),
            views(res@) == views(recent@).take(i as int).filter(other_than(uri@)),
        decreases recent.len() - i,
    {
        let p = recent[i].clone();
        proof {
            let t = views(recent@).take(i + 1);
            assert(t.drop_last() =~= views(recent@).take(i as int));
            assert(t.last() == p@);
            reveal(Seq::filter);
        }
        if !same_text(p.as_str(), uri) {
            let ghost prev = views(res@);
            res.push(p);
            assert(views(res@) =~= prev.push(views(recent@)[i as int]));
        }
        i += 1;
    }
    assert(views(recent@).take(recent.len() as int) =~= views(recent@));
    res
}

/// The recent network locations after connecting to `uri`, most recent
/// first and at most ten of them.
pub fn remember_connection(recent: &Vec<String>, uri: &str) -> (res: Vec<String>)
    ensures
        views(res@) == remembered(views(recent@), uri@),
{
    let rest = others(recent, uri);
    let mut res: Vec<String> = Vec::new();
    res.push(owned(uri));
    let mut i: usize = 0;
    while i < rest.len() && res.len() < 10
        invariant
            i <= rest.len(),
            res.len() == i + 1,
            res.len() <= 10,
            views(res@) == (seq![uri@] + views(rest@)).take(i + 1),
        decreases rest.len() - i,
    {
        let ghost prev = views(res@);
        res.push(rest[i].clone());
        assert(views(res@) =~= (seq![uri@] + views(rest@)).take(i + 2)) by {
            assert(views(res@) =~= prev.push(views(rest@)[i as int]));
        }
        i += 1;
    }
    assert(views(res@) =~= remembered(views(recent@), uri@));
    res
}

/// After connecting to `uri`, it heads the recent list, appears there once,
/// and the list holds at most ten entries.
pub proof fn lemma_remembered_first(recent: Seq<Seq<char>>, uri: Seq<char>)
    ensures
        remembered(recent, uri).len() >= 1,
        remembered(recent, uri).len() <= 10,
        remembered(recent, uri)[0] == uri,
        forall|i: int| 1 <= i < remembered(recent, uri).len() ==> #[trigger] remembered(recent, uri)[i] != uri,
{
    let rest = recent.filter(other_than(uri));
    let all = seq![uri] + rest;
    assert forall|i: int| 1 <= i < remembered(recent, uri).len() implies #[trigger] remembered(recent, uri)[i] != uri by {
        assert(remembered(recent, uri)[i] == all[i]);
        assert(all[i] == rest[i - 1]);
        recent.lemma_filter_pred(other_than(uri), i - 1);
    }
}

/// Connecting to the same location twice in a row leaves the list as the
/// first connection left it.
pub proof fn lemma_remember_idempotent(recent: Seq<Seq<char>>, uri: Seq<char>)
    ensures
        remembered(remembered(recent, uri), uri) == remembered(recent, uri),
{
    let once = remembered(recent, uri);
    lemma_remembered_first(recent, uri);
    let rest = once.filter(other_than(uri));
    assert(once =~= seq![uri] + once.drop_first());
    assert forall|i: int| 0 <= i < once.drop_first().len() implies #[trigger] once.drop_first()[i] != uri by {
        assert(once.drop_first()[i] == once[i + 1]);
    }
    lemma_filter_keeps_all(once.drop_first(), uri);
    reveal_with_fuel(Seq::filter, 2);
    lemma_filter_prepend_removed(once.drop_first(), uri);
    assert(rest =~= once.drop_first());
    assert(seq![uri] + rest =~= once);
}

proof fn lemma_filter_keeps_all(s: Seq<Seq<char>>, uri: Seq<char>)
    requires
        forall|i: int| 0 <= i < s.len() ==> #[trigger] s[i] != uri,
    ensures
        s.filter(other_than(uri)) == s,
    decreases s.len(),
{
    reveal(Seq::filter);
    if s.len() > 0 {
        lemma_filter_keeps_all(s.drop_last(), uri);
        assert(s.last() == s[s.len() - 1]);
        assert(s.drop_last().push(s.last()) =~= s);
    } else {
        assert(s.filter(other_than(uri)) =~= s);
    }
}

proof fn lemma_filter_prepend_removed(s: Seq<Seq<char>>, uri: Seq<char>)
    ensures
        (seq![uri] + s).filter(other_than(uri)) == s.filter(other_than(uri)),
{
    s.lemma_filter_prepend(uri, other_than(uri));
    assert(seq![uri] + s =~= s.insert(0, uri));
}

/// The scheme for the protocol chosen in the connection form.
pub open spec fn scheme(protocol: u32) -> Seq<char> {
    if protocol == 1 {
        "ftp"@
    } else if protocol == 2 {
        "smb"@
    } else if protocol == 3 {
        "dav"@
    } else {
        "sftp"@
    }
}

/// The URI that the connection form describes: scheme, user, server, port
/// and path, each part present only when filled in.
pub open spec fn connection_text(
    protocol: u32,
    server: Seq<char>,
    port: Seq<char>,
    path: Seq<char>,
    user: Seq<char>,
) -> Seq<char> {
    scheme(protocol) + "://"@
        + (if user.len() > 0 { user + "@"@ } else { Seq::empty() })
        + server
        + (if port.len() > 0 { ":"@ + port } else { Seq::empty() })
        + (if path.len() > 0 && path[0] != '/' { "/"@ } else { Seq::empty() })
        + path
}

/// The URI for the connection form, or `None` while no server is given.
pub fn connection_uri(protocol: u32, server: &str, port: &str, path: &str, user: &str) -> (res: Option<String>)
    ensures
        (res is None) == (server@.len() == 0),
        res matches Some(u) ==> u@ == connection_text(protocol, server@, port@, path@, user@),
{
    if server.is_empty() {
        return None;
    }
    proof {
        reveal_strlit("ftp");
        reveal_strlit("smb");
        reveal_strlit("dav");
        reveal_strlit("sftp");
        reveal_strlit("://");
        reveal_strlit("@");
        reveal_strlit(":");
        reveal_strlit("/");
    }
    let mut uri = if protocol == 1 {
        owned("ftp")
    } else if protocol == 2 {
        owned("smb")
    } else if protocol == 3 {
        owned("dav")
    } else {
        owned("sftp")
    };
    uri.append("://");
    if !user.is_empty() {
        uri.append(user);
        uri.push('@');
    }
    uri.append(server);
    if !port.is_empty() {
        uri.push(':');
        uri.append(port);
    }
    let pcs = crate::text::chars_of(path);
    if pcs.len() > 0 && pcs[0] != '/' {
        uri.push('/');
    }
    uri.append(path);
    assert(uri@ =~= connection_text(protocol, server@, port@, path@, user@));
    Some(uri)
}

/// The first name of `names` that ends with `suffix`, if any.
pub open spec fn first_with_suffix(names: Seq<Seq<char>>, suffix: Seq<char>) -> Option<Seq<char>>
    decreases names.len(),
{
    if names.len() == 0 {
        None
    } else if has_suffix(names[0], suffix) {
        Some(names[0])
    } else {
        first_with_suffix(names.drop_first(), suffix)
    }
}

/// The icon shown for a mounted volume, given the names of its themed icon
/// (`None` when its icon is not a themed one): the first symbolic name, else
/// the first name, else a hard disk.
pub open spec fn mount_icon(names: Option<Seq<Seq<char>>>) -> Seq<char> {
    match names {
        Some(ns) => match first_with_suffix(ns, "-symbolic"@) {
            Some(n) => n,
            None => if ns.len() > 0 { ns[0] } else { "drive-harddisk-symbolic"@ },
        },
        None => "drive-harddisk-symbolic"@,
    }
}

/// The icon name for a mounted volume from the names of its themed icon.
pub fn mount_icon_name(names: Option<&Vec<String>>) -> (res: String)
    ensures
        res@ == mount_icon(match names { Some(v) => Some(views(v@)), None => None }),
{
    let fallback = "drive-harddisk-symbolic";
    match names {
        None => owned(fallback),
        Some(ns) => {
            let suffix = "-symbolic";
            let ghost all = views(ns@);
            let mut i: usize = 0;
            assert(all.skip(0) =~= all);
            while i < ns.len()
                invariant
                    i <= ns.len(),
                    all == views(ns@),
                    suffix@ == "-symbolic"@,
                    names == Some(ns),
                    first_with_suffix(all, suffix@) == first_with_suffix(all.skip(i as int), suffix@),
                decreases ns.len() - i,
            {
                assert(all.skip(i as int).drop_first() =~= all.skip(i + 1));
                assert(all.skip(i as int)[0] == ns@[i as int]@);
                if ends_with(ns[i].as_str(), suffix) {
                    assert(first_with_suffix(all.skip(i as int), suffix@) == Some(ns@[i as int]@));
                    return owned(ns[i].as_str());
                }
                i += 1;
            }
            assert(all.skip(i as int).len() == 0);
            if ns.len() > 0 {
                owned(ns[0].as_str())
            } else {
                owned(fallback)
            }
        }
    }
}

/// Where activating a sidebar row leads: the path the row carries, unless
/// it carries none or is the trash.
pub fn row_target(name: &str) -> (res: Option<String>)
    ensures
        (res is Some) == (name@.len() > 0 && name@ != "trash:///"@),
        res matches Some(p) ==> p@ == name@,
{
    if name.is_empty() || same_text(name, "trash:///") {
        None
    } else {
        Some(owned(name))
    }
}

/// The standard places of the sidebar below `home`: label, icon and
/// directory, home first.
pub open spec fn standard_places(home: Seq<char>) -> Seq<(Seq<char>, Seq<char>, Seq<char>)> {
    seq![
        ("Home"@, "user-home-symbolic"@, home),
        ("Documents"@, "folder-documents-symbolic"@, joined(home, "Documents"@)),
        ("Downloads"@, "folder-download-symbolic"@, joined(home, "Downloads"@)),
        ("Desktop"@, "user-desktop-symbolic"@, joined(home, "Desktop"@)),
        ("Pictures"@, "folder-pictures-symbolic"@, joined(home, "Pictures"@)),
        ("Music"@, "folder-music-symbolic"@, joined(home, "Music"@)),
        ("Videos"@, "folder-videos-symbolic"@, joined(home, "Videos"@)),
    ]
}

/// The label, icon and directory of each standard place below `home`.
pub fn places_under(home: &str) -> (res: Vec<(String, String, String)>)
    ensures
        res@.map_values(|t: (String, String, String)| (t.0@, t.1@, t.2@)) == standard_places(home@),
{
    let mut res: Vec<(String, String, String)> = Vec::new();
    res.push((owned("Home"), owned("user-home-symbolic"), owned(home)));
    res.push((owned("Documents"), owned("folder-documents-symbolic"), path_join(home, "Documents")));
    res.push((owned("Downloads"), owned("folder-download-symbolic"), path_join(home, "Downloads")));
    res.push((owned("Desktop"), owned("user-desktop-symbolic"), path_join(home, "Desktop")));
    res.push((owned("Pictures"), owned("folder-pictures-symbolic"), path_join(home, "Pictures")));
    res.push((owned("Music"), owned("folder-music-symbolic"), path_join(home, "Music")));
    res.push((owned("Videos"), owned("folder-videos-symbolic"), path_join(home, "Videos")));
    assert(res@.map_values(|t: (String, String, String)| (t.0@, t.1@, t.2@)) =~= standard_places(home@));
    res
}

} // verus!

verus! {

/// The connection form's protocols are, in order, SFTP (also the
/// fallback), FTP, SMB and WebDAV; the URI is the scheme, "://", the user
/// and "@" when given, the server, ":" and the port when given, and the
/// path, with a "/" put before a path that lacks one.
pub proof fn lemma_connection_uri_parts(protocol: u32, server: Seq<char>, port: Seq<char>, path: Seq<char>, user: Seq<char>)
    ensures
        protocol == 0 ==> scheme(protocol) == "sftp"@,
        protocol == 1 ==> scheme(protocol) == "ftp"@,
        protocol == 2 ==> scheme(protocol) == "smb"@,
        protocol == 3 ==> scheme(protocol) == "dav"@,
        protocol > 3 ==> scheme(protocol) == "sftp"@,
        user.len() == 0 && port.len() == 0 && path.len() == 0
            ==> connection_text(protocol, server, port, path, user) == scheme(protocol) + "://"@ + server,
        user.len() > 0 && port.len() > 0 && path.len() > 0 && path[0] == '/'
            ==> connection_text(protocol, server, port, path, user)
                == scheme(protocol) + "://"@ + user + "@"@ + server + ":"@ + port + path,
        user.len() == 0 && port.len() == 0 && path.len() > 0 && path[0] != '/'
            ==> connection_text(protocol, server, port, path, user) == scheme(protocol) + "://"@ + server + "/"@ + path,
{
    assert(Seq::<char>::empty() + server =~= server);
    let s = scheme(protocol) + "://"@;
    if user.len() == 0 && port.len() == 0 && path.len() == 0 {
        assert(s + Seq::<char>::empty() + server + Seq::<char>::empty() + Seq::<char>::empty() + path =~= s + server);
    }
    if user.len() > 0 && port.len() > 0 && path.len() > 0 && path[0] == '/' {
        assert(s + (user + "@"@) + server + (":"@ + port) + Seq::<char>::empty() + path
            =~= s + user + "@"@ + server + ":"@ + port + path);
    }
    if user.len() == 0 && port.len() == 0 && path.len() > 0 && path[0] != '/' {
        assert(s + Seq::<char>::empty() + server + Seq::<char>::empty() + "/"@ + path =~= s + server + "/"@ + path);
    }
}

proof fn lemma_first_with_suffix(names: Seq<Seq<char>>, suffix: Seq<char>)
    ensures
        first_with_suffix(names, suffix) is Some ==> names.contains(first_with_suffix(names, suffix)->0)
            && has_suffix(first_with_suffix(names, suffix)->0, suffix),
        (exists|i: int| 0 <= i < names.len() && has_suffix(#[trigger] names[i], suffix))
            ==> first_with_suffix(names, suffix) is Some,
    decreases names.len(),
{
    if names.len() > 0 {
        lemma_first_with_suffix(names.drop_first(), suffix);
        if first_with_suffix(names, suffix) is Some {
            let n = first_with_suffix(names, suffix)->0;
            if !has_suffix(names[0], suffix) {
                let j = choose|j: int| 0 <= j < names.drop_first().len() && names.drop_first()[j] == n;
                assert(names[j + 1] == n);
            } else {
                assert(names[0] == n);
            }
        }
        if exists|i: int| 0 <= i < names.len() && has_suffix(#[trigger] names[i], suffix) {
            let i = choose|i: int| 0 <= i < names.len() && has_suffix(#[trigger] names[i], suffix);
            if i > 0 {
                assert(names.drop_first()[i - 1] == names[i]);
            }
        }
    }
}

/// A volume's icon is one of its own icon names, a symbolic one whenever
/// it has one, or the hard-disk icon when it has none.
pub proof fn lemma_mount_icon_choice(names: Option<Seq<Seq<char>>>)
    ensures
        names is Some && names->0.len() > 0 ==> names->0.contains(mount_icon(names)),
        names is Some && (exists|i: int| 0 <= i < names->0.len() && has_suffix(#[trigger] names->0[i], "-symbolic"@))
            ==> has_suffix(mount_icon(names), "-symbolic"@),
        (names is None || names->0.len() == 0) ==> mount_icon(names) == "drive-harddisk-symbolic"@,
{
    if let Some(ns) = names {
        lemma_first_with_suffix(ns, "-symbolic"@);
        if ns.len() > 0 {
            assert(ns[0] == ns[0]);
        }
        if ns.len() == 0 {
            assert(first_with_suffix(ns, "-symbolic"@) is None);
        }
    }
}

/// The standard places start at home; each other place is the folder of
/// home named by its label.
pub proof fn lemma_standard_places(home: Seq<char>)
    ensures
        standard_places(home).len() == 7,
        standard_places(home)[0].0 == "Home"@,
        standard_places(home)[0].2 == home,
        forall|i: int| 1 <= i < 7 ==> #[trigger] standard_places(home)[i].2 == joined(home, standard_places(home)[i].0),
{
}

} // verus!
