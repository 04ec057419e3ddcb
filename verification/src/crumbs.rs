//! The components of a Unix path, and what the location bar and the column
//! view build from them: one button per directory name, one column per
//! ancestor.
use vstd::prelude::*;
use crate::lines::{views, split_char, split_text, join_text};
use crate::text::{owned, same_text, concat2};

verus! {

/// Whether a piece between separators names a directory entry: it is
/// neither empty nor ".".
pub open spec fn is_named(piece: Seq<char>) -> bool {
    piece.len() > 0 && piece != "."@
}

/// The named pieces of `ps`, in order.
pub open spec fn named_only(ps: Seq<Seq<char>>) -> Seq<Seq<char>>
    decreases ps.len(),
{
    if ps.len() == 0 {
        Seq::empty()
    } else {
        let pre = named_only(ps.drop_last());
        if is_named(ps.last()) {
            pre.push(ps.last())
        } else {
            pre
        }
    }
}

/// The components of a path as `Path::components` yields them on Unix,
/// each written as text: "/" for the root, "." for a leading current
/// directory, then every piece between separators except empty ones and
/// ".".
pub open spec fn components(p: Seq<char>) -> Seq<Seq<char>> {
    let pieces = split_char(p, '/');
    if p.len() > 0 && p[0] == '/' {
        seq!["/"@] + named_only(pieces.drop_first())
    } else if pieces[0] == "."@ {
        seq!["."@] + named_only(pieces.drop_first())
    } else {
        named_only(pieces)
    }
}

/// Whether a component is a name: not the root, ".", or "..".
pub open spec fn is_normal(c: Seq<char>) -> bool {
    c != "/"@ && c != "."@ && c != ".."@
}

/// The normal components of `cs`, in order.
pub open spec fn normal_only(cs: Seq<Seq<char>>) -> Seq<Seq<char>>
    decreases cs.len(),
{
    if cs.len() == 0 {
        Seq::empty()
    } else {
        let pre = normal_only(cs.drop_last());
        if is_normal(cs.last()) {
            pre.push(cs.last())
        } else {
            pre
        }
    }
}

/// The breadcrumb buttons after the root button: one per name of the path,
/// labelled with the name and leading to the root joined with the names up
/// to it.
pub open spec fn crumb_trail(p: Seq<char>) -> Seq<(Seq<char>, Seq<char>)> {
    let names = normal_only(components(p));
    Seq::new(names.len(), |k: int| (names[k], "/"@ + join_text(names.take(k + 1), "/"@)))
}

/// `buf` with the component `c` pushed as `PathBuf::push` does it: the root
/// replaces everything, otherwise `c` is appended after a separator when
/// `buf` is non-empty and does not already end with one.
pub open spec fn pushed(buf: Seq<char>, c: Seq<char>) -> Seq<char> {
    if c.len() > 0 && c[0] == '/' {
        c
    } else if buf.len() == 0 {
        c
    } else if buf.last() == '/' {
        buf + c
    } else {
        buf + "/"@ + c
    }
}

/// The paths built by pushing the components of `cs` one by one onto an
/// empty path: one prefix per component.
pub open spec fn prefixes(cs: Seq<Seq<char>>) -> Seq<Seq<char>>
    decreases cs.len(),
{
    if cs.len() == 0 {
        Seq::empty()
    } else {
        let pre = prefixes(cs.drop_last());
        let buf = if pre.len() == 0 { Seq::empty() } else { pre.last() };
        pre.push(pushed(buf, cs.last()))
    }
}

proof fn lemma_prefixes_len(cs: Seq<Seq<char>>)
    ensures
        prefixes(cs).len() == cs.len(),
    decreases cs.len(),
{
    if cs.len() > 0 {
        lemma_prefixes_len(cs.drop_last());
    }
}

/// Whether `s` is exactly the one-character text `c`.
fn is_char_text(s: &str, c: char) -> (res: bool)
    ensures
        res == (s@ == seq![c]),
{
    let cs = crate::text::chars_of(s);
    let res = cs.len() == 1 && cs[0] == c;
    proof {
        if cs.len() == 1 && cs[0] == c {
            assert(s@ =~= seq![c]);
        }
    }
    res
}

/// The named pieces among `ps[from..]`.
fn named_from(ps: &Vec<String>, from: usize) -> (res: Vec<String>)
    requires
        from <= ps.len(),
    ensures
        views(res@) == named_only(views(ps@).skip(from as int)),
{
    let ghost all = views(ps@).skip(from as int);
    let mut res: Vec<String> = Vec::new();
    let mut i: usize = from;
    proof {
        reveal_strlit(".");
    }
    while i < ps.len()
        invariant
            from <= i <= ps.len(),
            all == views(ps@).skip(from as int),
            views(res@) == named_only(all.take(i - from)),
            "."@ == seq!['.'],
        decreases ps.len() - i,
    {
        let p = ps[i].clone();
        proof {
            assert(all.take(i - from + 1).drop_last() =~= all.take(i - from));
            assert(all.take(i - from + 1).last() == p@);
        }
        if !p.as_str().is_empty() && !is_char_text(p.as_str(), '.') {
            let ghost prev = views(res@);
            res.push(p);
            assert(views(res@) =~= prev.push(all[i - from]));
        }
        i += 1;
    }
    assert(all.take(ps.len() - from) =~= all);
    res
}

/// The components of `p` as text, as `Path::components` yields them on
/// Unix.
pub fn path_components(p: &str) -> (res: Vec<String>)
    ensures
        views(res@) == components(p@),
{
    let pieces = split_text(p, '/');
    proof {
        reveal_strlit("/");
        reveal_strlit(".");
        assert(split_char(p@, '/').len() >= 1) by {
            crate::crumbs::lemma_pieces_nonempty(p@);
        }
    }
    let cs = crate::text::chars_of(p);
    let mut res: Vec<String> = Vec::new();
    if cs.len() > 0 && cs[0] == '/' {
        res.push(owned("/"));
        let rest = named_from(&pieces, 1);
        let ghost head = views(res@);
        res.append(&mut rest.clone());
        proof {
            assert(views(pieces@).skip(1) =~= split_char(p@, '/').drop_first());
        }
        assert(views(res@) =~= head + views(rest@));
        assert(views(res@) =~= components(p@));
    } else if is_char_text(pieces[0].as_str(), '.') {
        assert(!(p@.len() > 0 && p@[0] == '/'));
        assert(views(pieces@)[0] == "."@);
        res.push(owned("."));
        let rest = named_from(&pieces, 1);
        let ghost head = views(res@);
        res.append(&mut rest.clone());
        proof {
            assert(views(pieces@).skip(1) =~= split_char(p@, '/').drop_first());
        }
        assert(views(res@) =~= head + views(rest@));
        assert(views(res@) =~= components(p@));
    } else {
        assert(!(p@.len() > 0 && p@[0] == '/'));
        assert(views(pieces@)[0] == pieces@[0]@);
        assert("."@ =~= seq!['.']);
        assert(pieces@[0]@ != seq!['.']);
        assert(views(pieces@)[0] != "."@);
        res = named_from(&pieces, 0);
        assert(views(pieces@).skip(0) =~= split_char(p@, '/'));
        assert(views(res@) =~= components(p@));
    }
    res
}

proof fn lemma_pieces_nonempty(p: Seq<char>)
    ensures
        split_char(p, '/').len() >= 1,
    decreases p.len(),
{
    if p.len() > 0 {
        lemma_pieces_nonempty(p.drop_last());
    }
}

/// The breadcrumb buttons after the root button for `path`: label and
/// target of each.
pub fn breadcrumbs(path: &str) -> (res: Vec<(String, String)>)
    ensures
        res@.map_values(|t: (String, String)| (t.0@, t.1@)) == crumb_trail(path@),
{
    let comps = path_components(path);
    let ghost names = normal_only(views(comps@));
    let mut res: Vec<(String, String)> = Vec::new();
    let mut target = owned("/");
    let mut names_seen: Vec<String> = Vec::new();
    let mut i: usize = 0;
    proof {
        reveal_strlit("/");
        reveal_strlit(".");
        reveal_strlit("..");
    }
    while i < comps.len()
        invariant
            i <= comps.len(),
            names == normal_only(views(comps@)),
            views(names_seen@) == normal_only(views(comps@).take(i as int)),
            names_seen.len() == res.len(),
            names_seen.len() == 0 ==> target@ == "/"@,
            names_seen.len() > 0 ==> target@ == "/"@ + join_text(views(names_seen@), "/"@),
            res@.map_values(|t: (String, String)| (t.0@, t.1@)) == Seq::new(
                names_seen.len() as nat,
                |k: int| (views(names_seen@)[k], "/"@ + join_text(views(names_seen@).take(k + 1), "/"@)),
            ),
            "/"@ == seq!['/'],
            "."@ == seq!['.'],
            ".."@ == seq!['.', '.'],
        decreases comps.len() - i,
    {
        let c = comps[i].clone();
        proof {
            assert(views(comps@).take(i + 1).drop_last() =~= views(comps@).take(i as int));
            assert(views(comps@).take(i + 1).last() == c@);
        }
        let dotdot = same_text(c.as_str(), "..");
        if !is_char_text(c.as_str(), '/') && !is_char_text(c.as_str(), '.') && !dotdot {
            let ghost seen = views(names_seen@);
            let ghost old_target = target@;
            let ghost old_res = res@.map_values(|t: (String, String)| (t.0@, t.1@));
            if names_seen.len() > 0 {
                target.push('/');
            }
            target.append(c.as_str());
            names_seen.push(c.clone());
            proof {
                let now = views(names_seen@);
                assert(now =~= seen.push(c@));
                assert(now.drop_last() =~= seen);
                if seen.len() > 0 {
                    assert(target@ =~= "/"@ + join_text(now, "/"@));
                } else {
                    assert(now =~= seq![c@]);
                    assert(target@ =~= "/"@ + join_text(now, "/"@));
                }
            }
            res.push((c, owned(target.as_str())));
            proof {
                let now = views(names_seen@);
                assert(now.take(now.len() as int) =~= now);
                assert forall|k: int| 0 <= k < seen.len() implies #[trigger] now.take(k + 1) == seen.take(k + 1) by {
                    assert(now.take(k + 1) =~= seen.take(k + 1));
                }
                let mapped = res@.map_values(|t: (String, String)| (t.0@, t.1@));
                assert(mapped =~= old_res.push((c@, target@)));
                let want = Seq::new(
                    names_seen.len() as nat,
                    |k: int| (now[k], "/"@ + join_text(now.take(k + 1), "/"@)),
                );
                assert forall|k: int| 0 <= k < mapped.len() implies mapped[k] == want[k] by {
                    if k < seen.len() {
                        assert(now[k] == seen[k]);
                    }
                }
                assert(mapped =~= want);
            }
        }
        i += 1;
    }
    assert(views(comps@).take(comps.len() as int) =~= views(comps@));
    res
}

/// `buf` with the component `c` pushed onto it, as `PathBuf::push` does.
fn push_component(buf: &String, c: &str) -> (res: String)
    ensures
        res@ == pushed(buf@, c@),
{
    let cs = crate::text::chars_of(c);
    if cs.len() > 0 && cs[0] == '/' {
        return owned(c);
    }
    let bs = crate::text::chars_of(buf.as_str());
    if bs.len() == 0 {
        owned(c)
    } else if bs[bs.len() - 1] == '/' {
        concat2(buf.as_str(), c)
    } else {
        proof {
            reveal_strlit("/");
        }
        crate::text::concat3(buf.as_str(), "/", c)
    }
}

/// The directories the column view opens for `path`: the path built up
/// one component at a time, one entry per component.
pub fn column_paths(path: &str) -> (res: Vec<String>)
    ensures
        views(res@) == prefixes(components(path@)),
{
    let comps = path_components(path);
    let mut res: Vec<String> = Vec::new();
    let mut buf = String::new();
    let mut i: usize = 0;
    while i < comps.len()
        invariant
            i <= comps.len(),
            views(res@) == prefixes(views(comps@).take(i as int)),
            buf@ == (if i == 0 { Seq::<char>::empty() } else { views(res@).last() }),
            res.len() == i,
        decreases comps.len() - i,
    {
        proof {
            assert(views(comps@).take(i + 1).drop_last() =~= views(comps@).take(i as int));
            assert(views(comps@).take(i + 1).last() == comps@[i as int]@);
            lemma_prefixes_len(views(comps@).take(i as int));
        }
        let next = push_component(&buf, comps[i].as_str());
        let ghost prev = views(res@);
        res.push(owned(next.as_str()));
        buf = next;
        assert(views(res@) =~= prev.push(buf@));
        i += 1;
    }
    assert(views(comps@).take(comps.len() as int) =~= views(comps@));
    res
}

/// Whether `n` can be one name of a path: non-empty, without a separator,
/// and neither "." nor "..".
pub open spec fn is_plain_name(n: Seq<char>) -> bool {
    n.len() > 0 && !n.contains('/') && n != "."@ && n != ".."@
}

proof fn lemma_named_keeps(names: Seq<Seq<char>>)
    requires
        forall|i: int| 0 <= i < names.len() ==> is_plain_name(#[trigger] names[i]),
    ensures
        named_only(names) == names,
    decreases names.len(),
{
    if names.len() > 0 {
        lemma_named_keeps(names.drop_last());
        assert(is_plain_name(names[names.len() - 1]));
        assert(names.drop_last().push(names.last()) =~= names);
    }
}

proof fn lemma_normal_after_root(names: Seq<Seq<char>>)
    requires
        forall|i: int| 0 <= i < names.len() ==> is_plain_name(#[trigger] names[i]),
    ensures
        normal_only(seq!["/"@] + names) == names,
    decreases names.len(),
{
    reveal_strlit("/");
    let all = seq!["/"@] + names;
    if names.len() == 0 {
        assert(all.drop_last() =~= Seq::<Seq<char>>::empty());
        assert(all.last() == "/"@);
        assert(!is_normal(all.last()));
        assert(normal_only(Seq::<Seq<char>>::empty()) == Seq::<Seq<char>>::empty());
        assert(normal_only(all) == normal_only(all.drop_last()));
        assert(names =~= Seq::<Seq<char>>::empty());
    } else {
        lemma_normal_after_root(names.drop_last());
        assert(all.drop_last() =~= seq!["/"@] + names.drop_last());
        let n = names.last();
        assert(is_plain_name(names[names.len() - 1]));
        assert(n != "/"@) by {
            if n == "/"@ {
                assert(n[0] == '/');
            }
        }
        assert(names.drop_last().push(n) =~= names);
    }
}

/// For a directory written as the root followed by names, the location bar
/// shows one button per name, and the last button leads back to the
/// directory itself.
pub proof fn lemma_last_crumb_is_path(names: Seq<Seq<char>>)
    requires
        names.len() >= 1,
        forall|i: int| 0 <= i < names.len() ==> is_plain_name(#[trigger] names[i]),
    ensures
        crumb_trail("/"@ + join_text(names, "/"@)).len() == names.len(),
        forall|k: int| 0 <= k < names.len() ==> (#[trigger] crumb_trail("/"@ + join_text(names, "/"@))[k]).0 == names[k],
        crumb_trail("/"@ + join_text(names, "/"@)).last().1 == "/"@ + join_text(names, "/"@),
{
    reveal_strlit("/");
    let p = "/"@ + join_text(names, "/"@);
    let parts = seq![Seq::<char>::empty()] + names;
    assert(crate::lines::free_of(parts, '/')) by {
        assert forall|i: int| 0 <= i < parts.len() implies !(#[trigger] parts[i]).contains('/') by {
            if i > 0 {
                assert(parts[i] == names[i - 1]);
                assert(is_plain_name(names[i - 1]));
            }
        }
    }
    crate::lines::lemma_join_front(Seq::empty(), names, seq!['/']);
    assert("/"@ =~= seq!['/']);
    assert(join_text(parts, seq!['/']) =~= p);
    crate::lines::lemma_split_join(parts, '/');
    assert(split_char(p, '/').drop_first() =~= names);
    lemma_named_keeps(names);
    assert(p[0] == '/');
    assert(components(p) == seq!["/"@] + names);
    lemma_normal_after_root(names);
    assert(names.take(names.len() as int) =~= names);
}

} // verus!
