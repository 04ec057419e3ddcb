//! Line- and separator-based text records: the bookmark file, the list of
//! recent connections and the tag attribute are all lists of strings joined
//! by one separator.
use vstd::prelude::*;
use crate::text::chars_of;

verus! {

/// The texts of a sequence of strings.
pub open spec fn views(v: Seq<String>) -> Seq<Seq<char>> {
    v.map_values(|x: String| x@)
}

/// The pieces of `s` between occurrences of `sep`, as `str::split` with a
/// character gives them: always at least one piece, empty pieces kept.
pub open spec fn split_char(s: Seq<char>, sep: char) -> Seq<Seq<char>>
    decreases s.len(),
{
    if s.len() == 0 {
        seq![Seq::empty()]
    } else {
        let pre = split_char(s.drop_last(), sep);
        if s.last() == sep {
            pre.push(Seq::empty())
        } else {
            pre.update(pre.len() - 1, pre.last().push(s.last()))
        }
    }
}

/// A line without the carriage return that ended it, if any.
pub open spec fn strip_cr(l: Seq<char>) -> Seq<char> {
    if l.len() > 0 && l.last() == '\r' {
        l.drop_last()
    } else {
        l
    }
}

/// The lines of `s` as `str::lines` gives them: the pieces between line
/// feeds, each with a carriage return before its line feed removed, and no
/// final empty piece after a last line feed.
pub open spec fn text_lines(s: Seq<char>) -> Seq<Seq<char>> {
    let parts = split_char(s, '\n');
    let n = parts.len();
    let body = parts.take(n - 1).map_values(|l: Seq<char>| strip_cr(l));
    if parts[n - 1].len() == 0 {
        body
    } else {
        body.push(parts[n - 1])
    }
}

/// The non-empty strings of `ls`, in order.
pub open spec fn nonempty_only(ls: Seq<Seq<char>>) -> Seq<Seq<char>>
    decreases ls.len(),
{
    if ls.len() == 0 {
        Seq::empty()
    } else {
        let pre = nonempty_only(ls.drop_last());
        if ls.last().len() > 0 {
            pre.push(ls.last())
        } else {
            pre
        }
    }
}

/// The strings of `parts` with `sep` between each two, as `join` writes
/// them.
pub open spec fn join_text(parts: Seq<Seq<char>>, sep: Seq<char>) -> Seq<char>
    decreases parts.len(),
{
    if parts.len() == 0 {
        Seq::empty()
    } else if parts.len() == 1 {
        parts[0]
    } else {
        join_text(parts.drop_last(), sep) + sep + parts.last()
    }
}

proof fn lemma_split_nonempty(s: Seq<char>, sep: char)
    ensures
        split_char(s, sep).len() >= 1,
    decreases s.len(),
{
    if s.len() > 0 {
        lemma_split_nonempty(s.drop_last(), sep);
    }
}

/// The pieces of `s` between occurrences of `sep`.
pub fn split_text(s: &str, sep: char) -> (res: Vec<String>)
    ensures
        views(res@) == split_char(s@, sep),
{
    let cs = chars_of(s);
    let mut done: Vec<String> = Vec::new();
    let mut cur = String::new();
    let mut i: usize = 0;
    while i < cs.len()
        invariant
            cs@ == s@,
            i <= cs.len(),
            views(done@).push(cur@) == split_char(cs@.take(i as int), sep),
        decreases cs.len() - i,
    {
        let c = cs[i];
        let ghost before = cs@.take(i as int);
        proof {
            assert(cs@.take(i + 1).drop_last() == before);
            assert(cs@.take(i + 1).last() == c);
            lemma_split_nonempty(before, sep);
        }
        if c == sep {
            done.push(cur);
            cur = String::new();
            proof {
                assert(views(done@).push(cur@) =~= split_char(cs@.take(i + 1), sep));
            }
        } else {
            let ghost old_cur = cur@;
            cur.push(c);
            proof {
                assert(views(done@).push(cur@) =~= split_char(cs@.take(i + 1), sep));
            }
        }
        i += 1;
    }
    assert(cs@.take(cs.len() as int) == cs@);
    done.push(cur);
    assert(views(done@) =~= split_char(s@, sep));
    done
}

/// The non-empty strings among `parts`, in order.
pub fn keep_nonempty(parts: Vec<String>) -> (res: Vec<String>)
    ensures
        views(res@) == nonempty_only(views(parts@)),
{
    let mut res: Vec<String> = Vec::new();
    let mut i: usize = 0;
    while i < parts.len()
        invariant
            i <= parts.len(),
            views(res@) == nonempty_only(views(parts@).take(i as int)),
        decreases parts.len() - i,
    {
        let p = parts[i].clone();
        proof {
            assert(views(parts@).take(i + 1).drop_last() =~= views(parts@).take(i as int));
            assert(views(parts@).take(i + 1).last() == p@);
        }
        if !p.as_str().is_empty() {
            res.push(p);
            assert(views(res@) =~= nonempty_only(views(parts@).take(i + 1)));
        }
        i += 1;
    }
    assert(views(parts@).take(parts.len() as int) =~= views(parts@));
    res
}

/// `l` without a final carriage return.
fn without_cr(l: String) -> (res: String)
    ensures
        res@ == strip_cr(l@),
{
    let cs = chars_of(l.as_str());
    let n = cs.len();
    if n > 0 && cs[n - 1] == '\r' {
        let mut res = String::new();
        let mut i: usize = 0;
        while i < n - 1
            invariant
                n == cs.len(),
                cs@ == l@,
                n > 0,
                i <= n - 1,
                res@ == cs@.take(i as int),
            decreases n - 1 - i,
        {
            res.push(cs[i]);
            assert(cs@.take(i + 1) == cs@.take(i as int).push(cs@[i as int]));
            i += 1;
        }
        assert(cs@.take(n - 1) =~= l@.drop_last());
        res
    } else {
        l
    }
}

/// The lines of `s`, as `str::lines` splits them.
pub fn lines_of(s: &str) -> (res: Vec<String>)
    ensures
        views(res@) == text_lines(s@),
{
    let parts = split_text(s, '\n');
    proof {
        lemma_split_nonempty(s@, '\n');
    }
    let n = parts.len();
    let mut res: Vec<String> = Vec::new();
    let mut i: usize = 0;
    while i < n - 1
        invariant
            n == parts.len(),
            n >= 1,
            views(parts@) == split_char(s@, '\n'),
            i <= n - 1,
            res.len() == i,
            views(res@) == views(parts@).take(i as int).map_values(|l: Seq<char>| strip_cr(l)),
        decreases n - 1 - i,
    {
        let p = parts[i].clone();
        let l = without_cr(p);
        assert(l@ == strip_cr(views(parts@)[i as int]));
        let ghost prev = views(res@);
        res.push(l);
        assert(views(res@) =~= prev.push(strip_cr(views(parts@)[i as int])));
        assert(views(res@) =~= views(parts@).take(i + 1).map_values(|l: Seq<char>| strip_cr(l)));
        i += 1;
    }
    let last = parts[n - 1].clone();
    if !last.as_str().is_empty() {
        res.push(last);
    }
    assert(views(res@) =~= text_lines(s@));
    res
}

/// The non-empty lines of `s`, in order: how the bookmark and connection
/// files are read.
pub fn nonempty_lines(s: &str) -> (res: Vec<String>)
    ensures
        views(res@) == nonempty_only(text_lines(s@)),
{
    let ls = lines_of(s);
    keep_nonempty(ls)
}

/// The strings of `parts` joined by `sep`.
pub fn join(parts: &Vec<String>, sep: &str) -> (res: String)
    ensures
        res@ == join_text(views(parts@), sep@),
{
    let mut res = String::new();
    let mut i: usize = 0;
    while i < parts.len()
        invariant
            i <= parts.len(),
            res@ == join_text(views(parts@).take(i as int), sep@),
        decreases parts.len() - i,
    {
        proof {
            assert(views(parts@).take(i + 1).drop_last() =~= views(parts@).take(i as int));
        }
        if i > 0 {
            res.append(sep);
        }
        res.append(parts[i].as_str());
        proof {
            if i == 0 {
                assert(views(parts@).take(1) =~= seq![parts@[0]@]);
            }
        }
        i += 1;
    }
    assert(views(parts@).take(parts.len() as int) =~= views(parts@));
    res
}

/// Whether no string of `parts` holds the character `c`.
pub open spec fn free_of(parts: Seq<Seq<char>>, c: char) -> bool {
    forall|i: int| 0 <= i < parts.len() ==> !(#[trigger] parts[i]).contains(c)
}

/// Whether every string of `parts` is non-empty.
pub open spec fn all_nonempty(parts: Seq<Seq<char>>) -> bool {
    forall|i: int| 0 <= i < parts.len() ==> (#[trigger] parts[i]).len() > 0
}

proof fn lemma_split_single(b: Seq<char>, sep: char)
    requires
        !b.contains(sep),
    ensures
        split_char(b, sep) == seq![b],
    decreases b.len(),
{
    if b.len() > 0 {
        assert(!b.drop_last().contains(sep)) by {
            if b.drop_last().contains(sep) {
                let k = choose|k: int| 0 <= k < b.drop_last().len() && b.drop_last()[k] == sep;
                assert(b[k] == sep);
            }
        }
        lemma_split_single(b.drop_last(), sep);
        assert(b.last() != sep) by {
            assert(b[b.len() - 1] == b.last());
        }
        assert(b.drop_last().push(b.last()) =~= b);
        assert(split_char(b, sep) =~= seq![b]);
    } else {
        assert(b =~= Seq::<char>::empty());
    }
}

proof fn lemma_split_after_sep(a: Seq<char>, b: Seq<char>, sep: char)
    requires
        !b.contains(sep),
    ensures
        split_char(a + seq![sep] + b, sep) == split_char(a, sep).push(b),
    decreases b.len(),
{
    let s = a + seq![sep] + b;
    if b.len() == 0 {
        assert(b =~= Seq::<char>::empty());
        assert(s.drop_last() =~= a);
        assert(s.last() == sep);
        assert(split_char(s, sep) =~= split_char(a, sep).push(b));
    } else {
        assert(!b.drop_last().contains(sep)) by {
            if b.drop_last().contains(sep) {
                let k = choose|k: int| 0 <= k < b.drop_last().len() && b.drop_last()[k] == sep;
                assert(b[k] == sep);
            }
        }
        lemma_split_after_sep(a, b.drop_last(), sep);
        assert(s.drop_last() =~= a + seq![sep] + b.drop_last());
        assert(s.last() == b.last());
        assert(b.last() != sep) by {
            assert(b[b.len() - 1] == b.last());
        }
        assert(b.drop_last().push(b.last()) =~= b);
        assert(split_char(s, sep) =~= split_char(a, sep).push(b));
    }
}

/// Splitting strings joined by `sep` gives them back when none holds `sep`.
pub proof fn lemma_split_join(parts: Seq<Seq<char>>, sep: char)
    requires
        parts.len() >= 1,
        free_of(parts, sep),
    ensures
        split_char(join_text(parts, seq![sep]), sep) == parts,
    decreases parts.len(),
{
    if parts.len() == 1 {
        assert(!parts[0].contains(sep));
        lemma_split_single(parts[0], sep);
        assert(split_char(join_text(parts, seq![sep]), sep) =~= parts);
    } else {
        let pre = parts.drop_last();
        assert(free_of(pre, sep)) by {
            assert forall|i: int| 0 <= i < pre.len() implies !(#[trigger] pre[i]).contains(sep) by {
                assert(pre[i] == parts[i]);
            }
        }
        lemma_split_join(pre, sep);
        assert(!parts.last().contains(sep)) by {
            assert(parts[parts.len() - 1] == parts.last());
        }
        lemma_split_after_sep(join_text(pre, seq![sep]), parts.last(), sep);
        assert(pre.push(parts.last()) =~= parts);
    }
}

/// Dropping empty strings keeps a list that has none.
pub proof fn lemma_nonempty_only_keeps(parts: Seq<Seq<char>>)
    requires
        all_nonempty(parts),
    ensures
        nonempty_only(parts) == parts,
    decreases parts.len(),
{
    if parts.len() > 0 {
        let pre = parts.drop_last();
        assert(all_nonempty(pre)) by {
            assert forall|i: int| 0 <= i < pre.len() implies (#[trigger] pre[i]).len() > 0 by {
                assert(pre[i] == parts[i]);
            }
        }
        lemma_nonempty_only_keeps(pre);
        assert(parts.last().len() > 0) by {
            assert(parts[parts.len() - 1] == parts.last());
        }
        assert(pre.push(parts.last()) =~= parts);
    }
}

/// Writing non-empty lines that hold no line feed and end in no carriage
/// return, one per line, and reading the non-empty lines back gives the same
/// list: the bookmark and recent-connection files keep what was saved.
pub proof fn lemma_lines_roundtrip(parts: Seq<Seq<char>>)
    requires
        all_nonempty(parts),
        free_of(parts, '\n'),
        forall|i: int| 0 <= i < parts.len() ==> (#[trigger] parts[i]).last() != '\r',
    ensures
        nonempty_only(text_lines(join_text(parts, seq!['\n']))) == parts,
{
    let s = join_text(parts, seq!['\n']);
    if parts.len() == 0 {
        assert(text_lines(s) =~= Seq::<Seq<char>>::empty());
    } else {
        lemma_split_join(parts, '\n');
        let n = parts.len();
        assert(parts.take(n - 1).map_values(|l: Seq<char>| strip_cr(l)) =~= parts.take(n - 1)) by {
            assert forall|i: int| 0 <= i < n - 1 implies strip_cr(#[trigger] parts[i]) == parts[i] by {
                assert(parts[i].len() > 0);
            }
        }
        assert(parts[n - 1].len() > 0);
        assert(parts.take(n - 1).push(parts[n - 1]) =~= parts);
        lemma_nonempty_only_keeps(parts);
    }
}

/// Joining strings that hold no `sep`, splitting the text at `sep` and
/// dropping empty pieces gives the list's non-empty strings in order; a
/// list without empty strings comes back unchanged.
pub proof fn lemma_split_roundtrip(parts: Seq<Seq<char>>, sep: char)
    requires
        free_of(parts, sep),
    ensures
        nonempty_only(split_char(join_text(parts, seq![sep]), sep)) == nonempty_only(parts),
        all_nonempty(parts) ==> nonempty_only(split_char(join_text(parts, seq![sep]), sep)) == parts,
{
    if parts.len() == 0 {
        let one = seq![Seq::<char>::empty()];
        assert(join_text(parts, seq![sep]) == Seq::<char>::empty());
        assert(split_char(Seq::<char>::empty(), sep) == one);
        assert(one.drop_last() =~= Seq::<Seq<char>>::empty());
        assert(nonempty_only(Seq::<Seq<char>>::empty()) == Seq::<Seq<char>>::empty());
        assert(nonempty_only(one) == Seq::<Seq<char>>::empty());
        assert(parts =~= Seq::<Seq<char>>::empty());
    } else {
        lemma_split_join(parts, sep);
        if all_nonempty(parts) {
            lemma_nonempty_only_keeps(parts);
        }
    }
}

/// Joining a list that starts with `x` writes `x`, the separator, then the
/// rest joined.
pub proof fn lemma_join_front(x: Seq<char>, rest: Seq<Seq<char>>, sep: Seq<char>)
    requires
        rest.len() >= 1,
    ensures
        join_text(seq![x] + rest, sep) == x + sep + join_text(rest, sep),
    decreases rest.len(),
{
    let all = seq![x] + rest;
    if rest.len() == 1 {
        assert(all.drop_last() =~= seq![x]);
        assert(all.last() == rest[0]);
        assert(join_text(seq![x], sep) == x);
        assert(join_text(rest, sep) == rest[0]);
        assert(join_text(all, sep) == join_text(all.drop_last(), sep) + sep + all.last());
        assert(join_text(all, sep) =~= x + sep + join_text(rest, sep));
    } else {
        lemma_join_front(x, rest.drop_last(), sep);
        assert(all.drop_last() =~= seq![x] + rest.drop_last());
        assert(all.last() == rest.last());
        assert(join_text(all, sep) =~= x + sep + join_text(rest, sep));
    }
}

} // verus!
