//! Directory listings: one entry per file with its icon and content type,
//! directories first, then by case-folded name.
use vstd::prelude::*;
use crate::text::{unicode_lowercase, to_lowercase, chars_of, string_of, owned, same_text, text_le, text_before_eq, lemma_text_le_total, lemma_text_le_trans};

verus! {

broadcast use vstd::seq_lib::group_to_multiset_ensures;

/// The text after the last '.' of a name, or the whole name when it has
/// none (what `rsplit('.').next()` gives).
pub open spec fn after_last_dot(s: Seq<char>) -> Seq<char>
    decreases s.len(),
{
    if s.len() == 0 {
        s
    } else if s.last() == '.' {
        Seq::empty()
    } else {
        after_last_dot(s.drop_last()).push(s.last())
    }
}

/// The icon of a non-directory entry, by its lowercased extension.
pub open spec fn icon_for_extension(ext: Seq<char>) -> Seq<char> {
    if ext == "png"@ || ext == "jpg"@ || ext == "jpeg"@ || ext == "gif"@ || ext == "svg"@
        || ext == "webp"@ || ext == "bmp"@ {
        "image-x-generic-symbolic"@
    } else if ext == "mp4"@ || ext == "mkv"@ || ext == "avi"@ || ext == "mov"@ || ext == "webm"@ {
        "video-x-generic-symbolic"@
    } else if ext == "mp3"@ || ext == "flac"@ || ext == "ogg"@ || ext == "wav"@ || ext == "aac"@ {
        "audio-x-generic-symbolic"@
    } else if ext == "pdf"@ {
        "x-office-document-symbolic"@
    } else if ext == "zip"@ || ext == "tar"@ || ext == "gz"@ || ext == "xz"@ || ext == "7z"@
        || ext == "rar"@ {
        "package-x-generic-symbolic"@
    } else {
        // source code, plain text and everything else
        "text-x-generic-symbolic"@
    }
}

/// The content type of a non-directory entry, by its lowercased extension.
pub open spec fn content_type_for_extension(ext: Seq<char>) -> Seq<char> {
    if ext == "txt"@ {
        "text/plain"@
    } else if ext == "rs"@ {
        "text/x-rust"@
    } else if ext == "py"@ {
        "text/x-python"@
    } else if ext == "png"@ {
        "image/png"@
    } else if ext == "jpg"@ || ext == "jpeg"@ {
        "image/jpeg"@
    } else if ext == "pdf"@ {
        "application/pdf"@
    } else if ext == "zip"@ {
        "application/zip"@
    } else {
        "application/octet-stream"@
    }
}

/// The lowercased extension of a name, as the icon and type guesses see it.
pub open spec fn folded_extension(name: Seq<char>) -> Seq<char> {
    unicode_lowercase(after_last_dot(name))
}

/// The text after the last '.' of `name`, or all of it.
pub fn extension_text(name: &str) -> (res: String)
    ensures
        res@ == after_last_dot(name@),
{
    let cs = chars_of(name);
    let mut i: usize = cs.len();
    // `tail` is what follows position `i`.
    assert(name@.take(i as int) =~= name@);
    assert(name@.skip(i as int) =~= Seq::<char>::empty());
    assert(after_last_dot(name@) =~= after_last_dot(name@) + Seq::<char>::empty());
    while i > 0 && cs[i - 1] != '.'
        invariant
            cs@ == name@,
            i <= cs.len(),
            after_last_dot(name@) == after_last_dot(name@.take(i as int)) + name@.skip(i as int),
        decreases i,
    {
        proof {
            let p = name@.take(i as int);
            assert(p.drop_last() =~= name@.take(i - 1));
            assert(p.last() == name@[i - 1]);
            assert(name@.skip(i - 1) =~= seq![name@[i - 1]] + name@.skip(i as int));
            assert(after_last_dot(p) == after_last_dot(p.drop_last()).push(p.last()));
            assert(after_last_dot(p.drop_last()).push(p.last()) + name@.skip(i as int)
                =~= after_last_dot(p.drop_last()) + name@.skip(i - 1));
        }
        i -= 1;
    }
    proof {
        let p = name@.take(i as int);
        if i > 0 {
            assert(p.last() == '.');
        }
        assert(after_last_dot(p) =~= Seq::<char>::empty());
    }
    let mut rest: Vec<char> = Vec::new();
    let mut k: usize = i;
    while k < cs.len()
        invariant
            cs@ == name@,
            i <= k <= cs.len(),
            rest@ == name@.subrange(i as int, k as int),
        decreases cs.len() - k,
    {
        rest.push(cs[k]);
        k += 1;
        assert(rest@ =~= name@.subrange(i as int, k as int));
    }
    assert(rest@ =~= name@.skip(i as int));
    assert(after_last_dot(name@) =~= Seq::<char>::empty() + name@.skip(i as int));
    string_of(&rest)
}

/// The icon name for a file called `name` (directories get "folder").
pub fn guess_icon(name: &str) -> (res: String)
    ensures
        res@ == icon_for_extension(folded_extension(name@)),
{
    let e = extension_text(name);
    let ext = to_lowercase(e.as_str());
    let x = ext.as_str();
    if same_text(x, "png") || same_text(x, "jpg") || same_text(x, "jpeg") || same_text(x, "gif")
        || same_text(x, "svg") || same_text(x, "webp") || same_text(x, "bmp") {
        owned("image-x-generic-symbolic")
    } else if same_text(x, "mp4") || same_text(x, "mkv") || same_text(x, "avi") || same_text(x, "mov")
        || same_text(x, "webm") {
        owned("video-x-generic-symbolic")
    } else if same_text(x, "mp3") || same_text(x, "flac") || same_text(x, "ogg") || same_text(x, "wav")
        || same_text(x, "aac") {
        owned("audio-x-generic-symbolic")
    } else if same_text(x, "pdf") {
        owned("x-office-document-symbolic")
    } else if same_text(x, "zip") || same_text(x, "tar") || same_text(x, "gz") || same_text(x, "xz")
        || same_text(x, "7z") || same_text(x, "rar") {
        owned("package-x-generic-symbolic")
    } else {
        owned("text-x-generic-symbolic")
    }
}

/// The content type for a file called `name` (directories get
/// "inode/directory").
pub fn guess_content_type(name: &str) -> (res: String)
    ensures
        res@ == content_type_for_extension(folded_extension(name@)),
{
    let e = extension_text(name);
    let ext = to_lowercase(e.as_str());
    let x = ext.as_str();
    if same_text(x, "txt") {
        owned("text/plain")
    } else if same_text(x, "rs") {
        owned("text/x-rust")
    } else if same_text(x, "py") {
        owned("text/x-python")
    } else if same_text(x, "png") {
        owned("image/png")
    } else if same_text(x, "jpg") || same_text(x, "jpeg") {
        owned("image/jpeg")
    } else if same_text(x, "pdf") {
        owned("application/pdf")
    } else if same_text(x, "zip") {
        owned("application/zip")
    } else {
        owned("application/octet-stream")
    }
}

/// One row of a directory listing.
pub struct DirEntry {
    pub name: String,
    pub path: String,
    pub size: u64,
    pub modified: i64,
    pub is_dir: bool,
    pub icon_name: String,
    pub content_type: String,
}

/// A listing row as values.
pub struct EntryView {
    pub name: Seq<char>,
    pub path: Seq<char>,
    pub size: u64,
    pub modified: i64,
    pub is_dir: bool,
    pub icon_name: Seq<char>,
    pub content_type: Seq<char>,
}

impl View for DirEntry {
    type V = EntryView;

    open spec fn view(&self) -> EntryView {
        EntryView {
            name: self.name@,
            path: self.path@,
            size: self.size,
            modified: self.modified,
            is_dir: self.is_dir,
            icon_name: self.icon_name@,
            content_type: self.content_type@,
        }
    }
}

/// What the file system reports of an entry.
pub struct EntryFacts {
    pub is_dir: bool,
    pub len: u64,
    pub modified: i64,
}

/// A directory entry as read, with its metadata when that could be read.
pub struct RawEntry {
    pub name: String,
    pub path: String,
    pub facts: Option<EntryFacts>,
}

/// The row for an entry: directories have size 0, the "folder" icon and
/// the "inode/directory" type; files keep their length and get icon and
/// type from their extension.
pub open spec fn row_for(name: Seq<char>, path: Seq<char>, f: EntryFacts) -> EntryView {
    EntryView {
        name: name,
        path: path,
        size: if f.is_dir { 0 } else { f.len },
        modified: f.modified,
        is_dir: f.is_dir,
        icon_name: if f.is_dir { "folder"@ } else { icon_for_extension(folded_extension(name)) },
        content_type: if f.is_dir {
            "inode/directory"@
        } else {
            content_type_for_extension(folded_extension(name))
        },
    }
}

/// The rows of the entries whose metadata could be read, in reading order.
pub open spec fn readable_rows(raw: Seq<RawEntry>) -> Seq<EntryView>
    decreases raw.len(),
{
    if raw.len() == 0 {
        Seq::empty()
    } else {
        let rest = readable_rows(raw.drop_last());
        match raw.last().facts {
            Some(f) => rest.push(row_for(raw.last().name@, raw.last().path@, f)),
            None => rest,
        }
    }
}

/// Whether `a` may stand before `b`: directories before files, then names
/// compared after lowercasing.
pub open spec fn row_le(a: EntryView, b: EntryView) -> bool {
    if a.is_dir && !b.is_dir {
        true
    } else if !a.is_dir && b.is_dir {
        false
    } else {
        text_le(unicode_lowercase(a.name), unicode_lowercase(b.name))
    }
}

/// Whether `a` must stand before `b`.
pub open spec fn row_lt(a: EntryView, b: EntryView) -> bool {
    !row_le(b, a)
}

/// `x` placed into `s` after every row it does not strictly precede.
pub open spec fn insert_row(s: Seq<EntryView>, x: EntryView) -> Seq<EntryView>
    decreases s.len(),
{
    if s.len() == 0 {
        seq![x]
    } else if row_lt(x, s.last()) {
        insert_row(s.drop_last(), x).push(s.last())
    } else {
        s.push(x)
    }
}

/// The stable sort of `s` by `row_le`: rows that compare equal keep their
/// order.
pub open spec fn listing_order(s: Seq<EntryView>) -> Seq<EntryView>
    decreases s.len(),
{
    if s.len() == 0 {
        s
    } else {
        insert_row(listing_order(s.drop_last()), s.last())
    }
}

/// Whether rows stand in listing order.
pub open spec fn rows_sorted(s: Seq<EntryView>) -> bool {
    forall|i: int, j: int| 0 <= i < j < s.len() ==> row_le(#[trigger] s[i], #[trigger] s[j])
}

/// The row for one entry.
pub fn make_entry(name: String, path: String, facts: &EntryFacts) -> (res: DirEntry)
    ensures
        res@ == row_for(name@, path@, *facts),
{
    let is_dir = facts.is_dir;
    let size = if is_dir { 0 } else { facts.len };
    let icon_name = if is_dir { owned("folder") } else { guess_icon(name.as_str()) };
    let content_type = if is_dir { owned("inode/directory") } else { guess_content_type(name.as_str()) };
    DirEntry { name, path, size, modified: facts.modified, is_dir, icon_name, content_type }
}

/// Whether row `a` must stand before row `b`.
fn strictly_before(a: &DirEntry, b: &DirEntry) -> (res: bool)
    ensures
        res == row_lt(a@, b@),
{
    if b.is_dir && !a.is_dir {
        false
    } else if !b.is_dir && a.is_dir {
        true
    } else {
        let lb = to_lowercase(b.name.as_str());
        let la = to_lowercase(a.name.as_str());
        !text_before_eq(lb.as_str(), la.as_str())
    }
}

proof fn lemma_insert_at(s: Seq<EntryView>, x: EntryView, j: int)
    requires
        0 <= j <= s.len(),
        forall|k: int| j <= k < s.len() ==> row_lt(x, #[trigger] s[k]),
        j == 0 || !row_lt(x, s[j - 1]),
    ensures
        insert_row(s, x) == s.insert(j, x),
    decreases s.len(),
{
    if s.len() == 0 {
        assert(s.insert(j, x) =~= seq![x]);
    } else if j == s.len() {
        assert(s.insert(j, x) =~= s.push(x));
    } else {
        assert(row_lt(x, s[s.len() - 1]));
        lemma_insert_at(s.drop_last(), x, j);
        assert(s.drop_last().insert(j, x).push(s.last()) =~= s.insert(j, x));
    }
}

/// `entries` in listing order: directories first, then by lowercased name,
/// keeping the reading order of rows that compare equal.
pub fn sort_entries(entries: Vec<DirEntry>) -> (res: Vec<DirEntry>)
    ensures
        res@.map_values(|e: DirEntry| e@) == listing_order(entries@.map_values(|e: DirEntry| e@)),
{
    let ghost input = entries@.map_values(|e: DirEntry| e@);
    let mut rest = entries;
    let mut res: Vec<DirEntry> = Vec::new();
    let ghost mut done: int = 0;
    while rest.len() > 0
        invariant
            0 <= done, done + rest.len() == input.len(),
            rest@.map_values(|e: DirEntry| e@) == input.skip(done as int),
            res@.map_values(|e: DirEntry| e@) == listing_order(input.take(done as int)),
        decreases rest.len(),
    {
        let x = rest.remove(0);
        proof {
            assert(input.skip(done as int)[0] == x@);
            assert(input.skip(done as int).skip(1) =~= input.skip(done + 1));
            assert(rest@.map_values(|e: DirEntry| e@) =~= input.skip(done + 1));
            assert(input.take(done + 1).drop_last() =~= input.take(done as int));
            assert(input.take(done + 1).last() == x@);
        }
        let mut j: usize = res.len();
        while j > 0 && strictly_before(&x, &res[j - 1])
            invariant
                j <= res.len(),
                forall|k: int| j <= k < res.len() ==> row_lt(x@, #[trigger] res@[k]@),
            decreases j,
        {
            j -= 1;
        }
        let ghost before = res@.map_values(|e: DirEntry| e@);
        proof {
            assert forall|k: int| j <= k < before.len() implies row_lt(x@, #[trigger] before[k]) by {
                assert(before[k] == res@[k]@);
            }
            if j > 0 {
                assert(before[j - 1] == res@[j - 1]@);
            }
            lemma_insert_at(before, x@, j as int);
        }
        res.insert(j, x);
        proof {
            assert(res@.map_values(|e: DirEntry| e@) =~= before.insert(j as int, x@));
            done = done + 1;
        }
    }
    proof {
        assert(input.take(done as int) =~= input);
    }
    res
}

/// The listing for what a directory read gave: the entries whose metadata
/// could be read, as rows, in listing order.
pub fn listing_from(raw: Vec<RawEntry>) -> (res: Vec<DirEntry>)
    ensures
        res@.map_values(|e: DirEntry| e@) == listing_order(readable_rows(raw@)),
{
    let ghost input = raw@;
    let mut rest = raw;
    let mut rows: Vec<DirEntry> = Vec::new();
    let ghost mut done: int = 0;
    while rest.len() > 0
        invariant
            0 <= done, done + rest.len() == input.len(),
            rest@ == input.skip(done as int),
            rows@.map_values(|e: DirEntry| e@) == readable_rows(input.take(done as int)),
        decreases rest.len(),
    {
        let r = rest.remove(0);
        proof {
            assert(input.skip(done as int)[0] == r);
            assert(input.skip(done as int).skip(1) =~= input.skip(done + 1));
            assert(input.take(done + 1).drop_last() =~= input.take(done as int));
            assert(input.take(done + 1).last() == r);
        }
        let RawEntry { name, path, facts } = r;
        match facts {
            Some(f) => {
                let e = make_entry(name, path, &f);
                let ghost before = rows@.map_values(|e: DirEntry| e@);
                rows.push(e);
                assert(rows@.map_values(|e: DirEntry| e@) =~= before.push(e@));
            }
            None => {}
        }
        proof {
            done = done + 1;
        }
    }
    proof {
        assert(input.take(done as int) =~= input);
    }
    sort_entries(rows)
}

proof fn lemma_row_le_total(a: EntryView, b: EntryView)
    ensures
        row_le(a, b) || row_le(b, a),
{
    lemma_text_le_total(unicode_lowercase(a.name), unicode_lowercase(b.name));
}

proof fn lemma_row_le_trans(a: EntryView, b: EntryView, c: EntryView)
    requires
        row_le(a, b),
        row_le(b, c),
    ensures
        row_le(a, c),
{
    if a.is_dir == b.is_dir && b.is_dir == c.is_dir {
        lemma_text_le_trans(unicode_lowercase(a.name), unicode_lowercase(b.name), unicode_lowercase(c.name));
    }
}

proof fn lemma_insert_row_elements(s: Seq<EntryView>, x: EntryView)
    ensures
        insert_row(s, x).len() == s.len() + 1,
        insert_row(s, x).to_multiset() == s.to_multiset().insert(x),
        forall|i: int| 0 <= i < insert_row(s, x).len() ==>
            #[trigger] insert_row(s, x)[i] == x || s.contains(insert_row(s, x)[i]),
    decreases s.len(),
{
    if s.len() == 0 {
        assert(seq![x] =~= Seq::<EntryView>::empty().push(x));
    } else if row_lt(x, s.last()) {
        let t = s.drop_last();
        lemma_insert_row_elements(t, x);
        assert(s =~= t.push(s.last()));
        let r = insert_row(s, x);
        assert forall|i: int| 0 <= i < r.len() implies #[trigger] r[i] == x || s.contains(r[i]) by {
            if i < r.len() - 1 {
                let y = insert_row(t, x)[i];
                if y != x {
                    let k = choose|k: int| 0 <= k < t.len() && t[k] == y;
                    assert(s[k] == y);
                }
            } else {
                assert(s[s.len() - 1] == r[i]);
            }
        }
    } else {
        let r = s.push(x);
        assert forall|i: int| 0 <= i < r.len() implies #[trigger] r[i] == x || s.contains(r[i]) by {
            if i < s.len() {
                assert(s[i] == r[i]);
            }
        }
    }
}

proof fn lemma_insert_row_sorted(s: Seq<EntryView>, x: EntryView)
    requires
        rows_sorted(s),
    ensures
        rows_sorted(insert_row(s, x)),
    decreases s.len(),
{
    if s.len() == 0 {
    } else if row_lt(x, s.last()) {
        let t = s.drop_last();
        let last = s.last();
        lemma_insert_row_sorted(t, x);
        lemma_insert_row_elements(t, x);
        let r0 = insert_row(t, x);
        let r = r0.push(last);
        lemma_row_le_total(x, last);
        assert forall|i: int, j: int| 0 <= i < j < r.len() implies row_le(#[trigger] r[i], #[trigger] r[j]) by {
            if j < r.len() - 1 {
                assert(r[i] == r0[i] && r[j] == r0[j]);
            } else {
                assert(r[i] == r0[i]);
                assert(r0[i] == x || t.contains(r0[i]));
                if r0[i] != x {
                    let k = choose|k: int| 0 <= k < t.len() && t[k] == r0[i];
                    assert(s[k] == t[k]);
                    assert(row_le(s[k], s[s.len() - 1]));
                }
            }
        }
    } else {
        let last = s.last();
        let r = s.push(x);
        lemma_row_le_total(x, last);
        assert forall|i: int, j: int| 0 <= i < j < r.len() implies row_le(#[trigger] r[i], #[trigger] r[j]) by {
            if j < r.len() - 1 {
                assert(r[i] == s[i] && r[j] == s[j]);
            } else if i < s.len() - 1 {
                assert(row_le(s[i], s[s.len() - 1]));
                lemma_row_le_trans(s[i], last, x);
            }
        }
    }
}

/// A listing is in order: every row may stand before every later row.
pub proof fn lemma_listing_sorted(s: Seq<EntryView>)
    ensures
        rows_sorted(listing_order(s)),
    decreases s.len(),
{
    if s.len() > 0 {
        lemma_listing_sorted(s.drop_last());
        lemma_insert_row_sorted(listing_order(s.drop_last()), s.last());
    }
}

/// A listing holds exactly the rows it was made from, each as often.
pub proof fn lemma_listing_permutes(s: Seq<EntryView>)
    ensures
        listing_order(s).to_multiset() == s.to_multiset(),
        listing_order(s).len() == s.len(),
    decreases s.len(),
{
    if s.len() > 0 {
        lemma_listing_permutes(s.drop_last());
        lemma_insert_row_elements(listing_order(s.drop_last()), s.last());
        assert(s =~= s.drop_last().push(s.last()));
    }
}

/// Whether two rows compare equal in listing order.
pub open spec fn same_rank(a: EntryView, b: EntryView) -> bool {
    row_le(a, b) && row_le(b, a)
}

/// The rows of `s` that compare equal to `k`, in their order in `s`.
pub open spec fn ranked_like(s: Seq<EntryView>, k: EntryView) -> Seq<EntryView>
    decreases s.len(),
{
    if s.len() == 0 {
        s
    } else if same_rank(s.last(), k) {
        ranked_like(s.drop_last(), k).push(s.last())
    } else {
        ranked_like(s.drop_last(), k)
    }
}

proof fn lemma_insert_keeps_ranked(t: Seq<EntryView>, x: EntryView, k: EntryView)
    ensures
        ranked_like(insert_row(t, x), k) == if same_rank(x, k) {
            ranked_like(t, k).push(x)
        } else {
            ranked_like(t, k)
        },
    decreases t.len(),
{
    if t.len() == 0 {
        assert(seq![x].drop_last() =~= t);
    } else if row_lt(x, t.last()) {
        let l = t.last();
        lemma_insert_keeps_ranked(t.drop_last(), x, k);
        assert(insert_row(t, x).drop_last() =~= insert_row(t.drop_last(), x));
        if same_rank(x, k) && same_rank(l, k) {
            lemma_row_le_trans(l, k, x);
        }
    } else {
        assert(t.push(x).drop_last() =~= t);
    }
}

/// The listing order is stable: the rows that compare equal to any given
/// row come out in the order they were read.
pub proof fn lemma_listing_stable(s: Seq<EntryView>, k: EntryView)
    ensures
        ranked_like(listing_order(s), k) == ranked_like(s, k),
    decreases s.len(),
{
    if s.len() > 0 {
        lemma_listing_stable(s.drop_last(), k);
        lemma_insert_keeps_ranked(listing_order(s.drop_last()), s.last(), k);
    }
}

} // verus!

verus! {

/// A listing shows every directory before every file, and within the
/// directories, and within the files, the case-folded names never go down
/// in text order.
pub proof fn lemma_listing_dirs_then_names(s: Seq<EntryView>)
    ensures
        forall|i: int, j: int| 0 <= i < j < listing_order(s).len() && (#[trigger] listing_order(s)[j]).is_dir
            ==> (#[trigger] listing_order(s)[i]).is_dir,
        forall|i: int, j: int| 0 <= i < j < listing_order(s).len()
            && (#[trigger] listing_order(s)[i]).is_dir == (#[trigger] listing_order(s)[j]).is_dir
            ==> text_le(unicode_lowercase(listing_order(s)[i].name), unicode_lowercase(listing_order(s)[j].name)),
{
    lemma_listing_sorted(s);
    let l = listing_order(s);
    assert forall|i: int, j: int| 0 <= i < j < l.len() && (#[trigger] l[j]).is_dir implies (#[trigger] l[i]).is_dir by {
        assert(row_le(l[i], l[j]));
    }
    assert forall|i: int, j: int| 0 <= i < j < l.len() && (#[trigger] l[i]).is_dir == (#[trigger] l[j]).is_dir
        implies text_le(unicode_lowercase(l[i].name), unicode_lowercase(l[j].name)) by {
        assert(row_le(l[i], l[j]));
    }
}

} // verus!

verus! {

/// Which icon and content type a file gets by its extension: pictures,
/// videos, sound, PDF documents and archives have their own icons, and the
/// common text, source, image, PDF and zip extensions their content types.
pub proof fn lemma_icons_and_types()
    ensures
        icon_for_extension("png"@) == "image-x-generic-symbolic"@,
        icon_for_extension("jpg"@) == "image-x-generic-symbolic"@,
        icon_for_extension("jpeg"@) == "image-x-generic-symbolic"@,
        icon_for_extension("gif"@) == "image-x-generic-symbolic"@,
        icon_for_extension("svg"@) == "image-x-generic-symbolic"@,
        icon_for_extension("webp"@) == "image-x-generic-symbolic"@,
        icon_for_extension("bmp"@) == "image-x-generic-symbolic"@,
        icon_for_extension("mp4"@) == "video-x-generic-symbolic"@,
        icon_for_extension("mkv"@) == "video-x-generic-symbolic"@,
        icon_for_extension("avi"@) == "video-x-generic-symbolic"@,
        icon_for_extension("mov"@) == "video-x-generic-symbolic"@,
        icon_for_extension("webm"@) == "video-x-generic-symbolic"@,
        icon_for_extension("mp3"@) == "audio-x-generic-symbolic"@,
        icon_for_extension("flac"@) == "audio-x-generic-symbolic"@,
        icon_for_extension("ogg"@) == "audio-x-generic-symbolic"@,
        icon_for_extension("wav"@) == "audio-x-generic-symbolic"@,
        icon_for_extension("aac"@) == "audio-x-generic-symbolic"@,
        icon_for_extension("pdf"@) == "x-office-document-symbolic"@,
        icon_for_extension("zip"@) == "package-x-generic-symbolic"@,
        icon_for_extension("tar"@) == "package-x-generic-symbolic"@,
        icon_for_extension("gz"@) == "package-x-generic-symbolic"@,
        icon_for_extension("xz"@) == "package-x-generic-symbolic"@,
        icon_for_extension("7z"@) == "package-x-generic-symbolic"@,
        icon_for_extension("rar"@) == "package-x-generic-symbolic"@,
        content_type_for_extension("txt"@) == "text/plain"@,
        content_type_for_extension("rs"@) == "text/x-rust"@,
        content_type_for_extension("py"@) == "text/x-python"@,
        content_type_for_extension("png"@) == "image/png"@,
        content_type_for_extension("jpg"@) == "image/jpeg"@,
        content_type_for_extension("jpeg"@) == "image/jpeg"@,
        content_type_for_extension("pdf"@) == "application/pdf"@,
        content_type_for_extension("zip"@) == "application/zip"@,
{
    reveal_strlit("7z");
    reveal_strlit("aac");
    reveal_strlit("avi");
    reveal_strlit("bmp");
    reveal_strlit("flac");
    reveal_strlit("gif");
    reveal_strlit("gz");
    reveal_strlit("jpeg");
    reveal_strlit("jpg");
    reveal_strlit("mkv");
    reveal_strlit("mov");
    reveal_strlit("mp3");
    reveal_strlit("mp4");
    reveal_strlit("ogg");
    reveal_strlit("pdf");
    reveal_strlit("png");
    reveal_strlit("py");
    reveal_strlit("rar");
    reveal_strlit("rs");
    reveal_strlit("svg");
    reveal_strlit("tar");
    reveal_strlit("txt");
    reveal_strlit("wav");
    reveal_strlit("webm");
    reveal_strlit("webp");
    reveal_strlit("xz");
    reveal_strlit("zip");
    assert("wav"@.len() != "jpeg"@.len());
    assert("wav"@.len() != "webp"@.len());
    assert("wav"@.len() != "webm"@.len());
    assert("wav"@.len() != "flac"@.len());
    assert("wav"@.len() != "gz"@.len());
    assert("wav"@.len() != "xz"@.len());
    assert("wav"@.len() != "7z"@.len());
    assert("gz"@.len() != "png"@.len());
    assert("gz"@.len() != "jpg"@.len());
    assert("gz"@.len() != "jpeg"@.len());
    assert("gz"@.len() != "gif"@.len());
    assert("gz"@.len() != "svg"@.len());
    assert("gz"@.len() != "webp"@.len());
    assert("gz"@.len() != "bmp"@.len());
    assert("gz"@.len() != "mp4"@.len());
    assert("gz"@.len() != "mkv"@.len());
    assert("gz"@.len() != "avi"@.len());
    assert("gz"@.len() != "mov"@.len());
    assert("gz"@.len() != "webm"@.len());
    assert("gz"@.len() != "mp3"@.len());
    assert("gz"@.len() != "flac"@.len());
    assert("gz"@.len() != "ogg"@.len());
    assert("gz"@.len() != "wav"@.len());
    assert("gz"@.len() != "aac"@.len());
    assert("gz"@.len() != "pdf"@.len());
    assert("gz"@.len() != "zip"@.len());
    assert("gz"@.len() != "tar"@.len());
    assert("gz"@.len() != "rar"@.len());
    assert("aac"@.len() != "jpeg"@.len());
    assert("aac"@.len() != "webp"@.len());
    assert("aac"@.len() != "webm"@.len());
    assert("aac"@.len() != "flac"@.len());
    assert("aac"@.len() != "gz"@.len());
    assert("aac"@.len() != "xz"@.len());
    assert("aac"@.len() != "7z"@.len());
    assert("ogg"@.len() != "jpeg"@.len());
    assert("ogg"@.len() != "webp"@.len());
    assert("ogg"@.len() != "webm"@.len());
    assert("ogg"@.len() != "flac"@.len());
    assert("ogg"@.len() != "gz"@.len());
    assert("ogg"@.len() != "xz"@.len());
    assert("ogg"@.len() != "7z"@.len());
    assert("xz"@.len() != "png"@.len());
    assert("xz"@.len() != "jpg"@.len());
    assert("xz"@.len() != "jpeg"@.len());
    assert("xz"@.len() != "gif"@.len());
    assert("xz"@.len() != "svg"@.len());
    assert("xz"@.len() != "webp"@.len());
    assert("xz"@.len() != "bmp"@.len());
    assert("xz"@.len() != "mp4"@.len());
    assert("xz"@.len() != "mkv"@.len());
    assert("xz"@.len() != "avi"@.len());
    assert("xz"@.len() != "mov"@.len());
    assert("xz"@.len() != "webm"@.len());
    assert("xz"@.len() != "mp3"@.len());
    assert("xz"@.len() != "flac"@.len());
    assert("xz"@.len() != "ogg"@.len());
    assert("xz"@.len() != "wav"@.len());
    assert("xz"@.len() != "aac"@.len());
    assert("xz"@.len() != "pdf"@.len());
    assert("xz"@.len() != "zip"@.len());
    assert("xz"@.len() != "tar"@.len());
    assert("xz"@.len() != "rar"@.len());
    assert("7z"@.len() != "png"@.len());
    assert("7z"@.len() != "jpg"@.len());
    assert("7z"@.len() != "jpeg"@.len());
    assert("7z"@.len() != "gif"@.len());
    assert("7z"@.len() != "svg"@.len());
    assert("7z"@.len() != "webp"@.len());
    assert("7z"@.len() != "bmp"@.len());
    assert("7z"@.len() != "mp4"@.len());
    assert("7z"@.len() != "mkv"@.len());
    assert("7z"@.len() != "avi"@.len());
    assert("7z"@.len() != "mov"@.len());
    assert("7z"@.len() != "webm"@.len());
    assert("7z"@.len() != "mp3"@.len());
    assert("7z"@.len() != "flac"@.len());
    assert("7z"@.len() != "ogg"@.len());
    assert("7z"@.len() != "wav"@.len());
    assert("7z"@.len() != "aac"@.len());
    assert("7z"@.len() != "pdf"@.len());
    assert("7z"@.len() != "zip"@.len());
    assert("7z"@.len() != "tar"@.len());
    assert("7z"@.len() != "rar"@.len());
    assert("rar"@.len() != "jpeg"@.len());
    assert("rar"@.len() != "webp"@.len());
    assert("rar"@.len() != "webm"@.len());
    assert("rar"@.len() != "flac"@.len());
    assert("rar"@.len() != "gz"@.len());
    assert("rar"@.len() != "xz"@.len());
    assert("rar"@.len() != "7z"@.len());
    assert("tar"@.len() != "jpeg"@.len());
    assert("tar"@.len() != "webp"@.len());
    assert("tar"@.len() != "webm"@.len());
    assert("tar"@.len() != "flac"@.len());
    assert("tar"@.len() != "gz"@.len());
    assert("tar"@.len() != "xz"@.len());
    assert("tar"@.len() != "7z"@.len());
    assert("zip"@.len() != "jpeg"@.len());
    assert("zip"@.len() != "webp"@.len());
    assert("zip"@.len() != "webm"@.len());
    assert("zip"@.len() != "flac"@.len());
    assert("zip"@.len() != "gz"@.len());
    assert("zip"@.len() != "xz"@.len());
    assert("zip"@.len() != "7z"@.len());
    assert("pdf"@.len() != "jpeg"@.len());
    assert("pdf"@.len() != "webp"@.len());
    assert("pdf"@.len() != "webm"@.len());
    assert("pdf"@.len() != "flac"@.len());
    assert("pdf"@.len() != "gz"@.len());
    assert("pdf"@.len() != "xz"@.len());
    assert("pdf"@.len() != "7z"@.len());
    assert("mp3"@.len() != "jpeg"@.len());
    assert("mp3"@.len() != "webp"@.len());
    assert("mp3"@.len() != "webm"@.len());
    assert("mp3"@.len() != "flac"@.len());
    assert("mp3"@.len() != "gz"@.len());
    assert("mp3"@.len() != "xz"@.len());
    assert("mp3"@.len() != "7z"@.len());
    assert("flac"@.len() != "png"@.len());
    assert("flac"@.len() != "jpg"@.len());
    assert("flac"@.len() != "gif"@.len());
    assert("flac"@.len() != "svg"@.len());
    assert("flac"@.len() != "bmp"@.len());
    assert("flac"@.len() != "mp4"@.len());
    assert("flac"@.len() != "mkv"@.len());
    assert("flac"@.len() != "avi"@.len());
    assert("flac"@.len() != "mov"@.len());
    assert("flac"@.len() != "mp3"@.len());
    assert("flac"@.len() != "ogg"@.len());
    assert("flac"@.len() != "wav"@.len());
    assert("flac"@.len() != "aac"@.len());
    assert("flac"@.len() != "pdf"@.len());
    assert("flac"@.len() != "zip"@.len());
    assert("flac"@.len() != "tar"@.len());
    assert("flac"@.len() != "gz"@.len());
    assert("flac"@.len() != "xz"@.len());
    assert("flac"@.len() != "7z"@.len());
    assert("flac"@.len() != "rar"@.len());
    assert("7z"@[0] != "gz"@[0]);
    assert("7z"@[0] != "py"@[0]);
    assert("7z"@[0] != "rs"@[0]);
    assert("7z"@[0] != "xz"@[0]);
    assert("aac"@[1] != "avi"@[1]);
    assert("aac"@[0] != "bmp"@[0]);
    assert("aac"@[0] != "gif"@[0]);
    assert("aac"@[0] != "jpg"@[0]);
    assert("aac"@[0] != "mkv"@[0]);
    assert("aac"@[0] != "mov"@[0]);
    assert("aac"@[0] != "mp3"@[0]);
    assert("aac"@[0] != "mp4"@[0]);
    assert("aac"@[0] != "ogg"@[0]);
    assert("aac"@[0] != "pdf"@[0]);
    assert("aac"@[0] != "png"@[0]);
    assert("aac"@[0] != "rar"@[0]);
    assert("aac"@[0] != "svg"@[0]);
    assert("aac"@[0] != "tar"@[0]);
    assert("aac"@[0] != "txt"@[0]);
    assert("aac"@[0] != "wav"@[0]);
    assert("aac"@[0] != "zip"@[0]);
    assert("avi"@[0] != "bmp"@[0]);
    assert("avi"@[0] != "gif"@[0]);
    assert("avi"@[0] != "jpg"@[0]);
    assert("avi"@[0] != "mkv"@[0]);
    assert("avi"@[0] != "mov"@[0]);
    assert("avi"@[0] != "mp3"@[0]);
    assert("avi"@[0] != "mp4"@[0]);
    assert("avi"@[0] != "ogg"@[0]);
    assert("avi"@[0] != "pdf"@[0]);
    assert("avi"@[0] != "png"@[0]);
    assert("avi"@[0] != "rar"@[0]);
    assert("avi"@[0] != "svg"@[0]);
    assert("avi"@[0] != "tar"@[0]);
    assert("avi"@[0] != "txt"@[0]);
    assert("avi"@[0] != "wav"@[0]);
    assert("avi"@[0] != "zip"@[0]);
    assert("bmp"@[0] != "gif"@[0]);
    assert("bmp"@[0] != "jpg"@[0]);
    assert("bmp"@[0] != "mkv"@[0]);
    assert("bmp"@[0] != "mov"@[0]);
    assert("bmp"@[0] != "mp3"@[0]);
    assert("bmp"@[0] != "mp4"@[0]);
    assert("bmp"@[0] != "ogg"@[0]);
    assert("bmp"@[0] != "pdf"@[0]);
    assert("bmp"@[0] != "png"@[0]);
    assert("bmp"@[0] != "rar"@[0]);
    assert("bmp"@[0] != "svg"@[0]);
    assert("bmp"@[0] != "tar"@[0]);
    assert("bmp"@[0] != "txt"@[0]);
    assert("bmp"@[0] != "wav"@[0]);
    assert("bmp"@[0] != "zip"@[0]);
    assert("flac"@[0] != "jpeg"@[0]);
    assert("flac"@[0] != "webm"@[0]);
    assert("flac"@[0] != "webp"@[0]);
    assert("gif"@[0] != "jpg"@[0]);
    assert("gif"@[0] != "mkv"@[0]);
    assert("gif"@[0] != "mov"@[0]);
    assert("gif"@[0] != "mp3"@[0]);
    assert("gif"@[0] != "mp4"@[0]);
    assert("gif"@[0] != "ogg"@[0]);
    assert("gif"@[0] != "pdf"@[0]);
    assert("gif"@[0] != "png"@[0]);
    assert("gif"@[0] != "rar"@[0]);
    assert("gif"@[0] != "svg"@[0]);
    assert("gif"@[0] != "tar"@[0]);
    assert("gif"@[0] != "txt"@[0]);
    assert("gif"@[0] != "wav"@[0]);
    assert("gif"@[0] != "zip"@[0]);
    assert("gz"@[0] != "py"@[0]);
    assert("gz"@[0] != "rs"@[0]);
    assert("gz"@[0] != "xz"@[0]);
    assert("jpeg"@[0] != "webm"@[0]);
    assert("jpeg"@[0] != "webp"@[0]);
    assert("jpg"@[0] != "mkv"@[0]);
    assert("jpg"@[0] != "mov"@[0]);
    assert("jpg"@[0] != "mp3"@[0]);
    assert("jpg"@[0] != "mp4"@[0]);
    assert("jpg"@[0] != "ogg"@[0]);
    assert("jpg"@[0] != "pdf"@[0]);
    assert("jpg"@[0] != "png"@[0]);
    assert("jpg"@[0] != "rar"@[0]);
    assert("jpg"@[0] != "svg"@[0]);
    assert("jpg"@[0] != "tar"@[0]);
    assert("jpg"@[0] != "txt"@[0]);
    assert("jpg"@[0] != "wav"@[0]);
    assert("jpg"@[0] != "zip"@[0]);
    assert("mkv"@[1] != "mov"@[1]);
    assert("mkv"@[1] != "mp3"@[1]);
    assert("mkv"@[1] != "mp4"@[1]);
    assert("mkv"@[0] != "ogg"@[0]);
    assert("mkv"@[0] != "pdf"@[0]);
    assert("mkv"@[0] != "png"@[0]);
    assert("mkv"@[0] != "rar"@[0]);
    assert("mkv"@[0] != "svg"@[0]);
    assert("mkv"@[0] != "tar"@[0]);
    assert("mkv"@[0] != "txt"@[0]);
    assert("mkv"@[0] != "wav"@[0]);
    assert("mkv"@[0] != "zip"@[0]);
    assert("mov"@[1] != "mp3"@[1]);
    assert("mov"@[1] != "mp4"@[1]);
    assert("mov"@[0] != "ogg"@[0]);
    assert("mov"@[0] != "pdf"@[0]);
    assert("mov"@[0] != "png"@[0]);
    assert("mov"@[0] != "rar"@[0]);
    assert("mov"@[0] != "svg"@[0]);
    assert("mov"@[0] != "tar"@[0]);
    assert("mov"@[0] != "txt"@[0]);
    assert("mov"@[0] != "wav"@[0]);
    assert("mov"@[0] != "zip"@[0]);
    assert("mp3"@[2] != "mp4"@[2]);
    assert("mp3"@[0] != "ogg"@[0]);
    assert("mp3"@[0] != "pdf"@[0]);
    assert("mp3"@[0] != "png"@[0]);
    assert("mp3"@[0] != "rar"@[0]);
    assert("mp3"@[0] != "svg"@[0]);
    assert("mp3"@[0] != "tar"@[0]);
    assert("mp3"@[0] != "txt"@[0]);
    assert("mp3"@[0] != "wav"@[0]);
    assert("mp3"@[0] != "zip"@[0]);
    assert("mp4"@[0] != "ogg"@[0]);
    assert("mp4"@[0] != "pdf"@[0]);
    assert("mp4"@[0] != "png"@[0]);
    assert("mp4"@[0] != "rar"@[0]);
    assert("mp4"@[0] != "svg"@[0]);
    assert("mp4"@[0] != "tar"@[0]);
    assert("mp4"@[0] != "txt"@[0]);
    assert("mp4"@[0] != "wav"@[0]);
    assert("mp4"@[0] != "zip"@[0]);
    assert("ogg"@[0] != "pdf"@[0]);
    assert("ogg"@[0] != "png"@[0]);
    assert("ogg"@[0] != "rar"@[0]);
    assert("ogg"@[0] != "svg"@[0]);
    assert("ogg"@[0] != "tar"@[0]);
    assert("ogg"@[0] != "txt"@[0]);
    assert("ogg"@[0] != "wav"@[0]);
    assert("ogg"@[0] != "zip"@[0]);
    assert("pdf"@[1] != "png"@[1]);
    assert("pdf"@[0] != "rar"@[0]);
    assert("pdf"@[0] != "svg"@[0]);
    assert("pdf"@[0] != "tar"@[0]);
    assert("pdf"@[0] != "txt"@[0]);
    assert("pdf"@[0] != "wav"@[0]);
    assert("pdf"@[0] != "zip"@[0]);
    assert("png"@[0] != "rar"@[0]);
    assert("png"@[0] != "svg"@[0]);
    assert("png"@[0] != "tar"@[0]);
    assert("png"@[0] != "txt"@[0]);
    assert("png"@[0] != "wav"@[0]);
    assert("png"@[0] != "zip"@[0]);
    assert("py"@[0] != "rs"@[0]);
    assert("py"@[0] != "xz"@[0]);
    assert("rar"@[0] != "svg"@[0]);
    assert("rar"@[0] != "tar"@[0]);
    assert("rar"@[0] != "txt"@[0]);
    assert("rar"@[0] != "wav"@[0]);
    assert("rar"@[0] != "zip"@[0]);
    assert("rs"@[0] != "xz"@[0]);
    assert("svg"@[0] != "tar"@[0]);
    assert("svg"@[0] != "txt"@[0]);
    assert("svg"@[0] != "wav"@[0]);
    assert("svg"@[0] != "zip"@[0]);
    assert("tar"@[1] != "txt"@[1]);
    assert("tar"@[0] != "wav"@[0]);
    assert("tar"@[0] != "zip"@[0]);
    assert("txt"@[0] != "wav"@[0]);
    assert("txt"@[0] != "zip"@[0]);
    assert("wav"@[0] != "zip"@[0]);
    assert("webm"@[3] != "webp"@[3]);
}

} // verus!
