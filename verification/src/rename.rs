//! Batch renaming: the new name of each file under the four rename modes.
use vstd::prelude::*;
use crate::text::{replace_text, zero_padded, has_prefix, owned, concat3, replace, zero_padded_text, starts_with, concat2};
use crate::paths::{file_stem_of, extension_of, path_file_stem, path_extension, name_or_empty, parent_of, joined, same_path, file_name_or_empty, path_parent, path_join, paths_equal};
use crate::pattern::{regex_compiles, regex_replaced, compile, replace_all};

verus! {

/// The parameters of a batch rename.
pub struct RenameParams {
    /// 0: find and replace, 1: prefix and suffix, 2: numbering,
    /// 3: change extension; other values keep names.
    pub mode: u32,
    pub find: String,
    pub replace: String,
    pub prefix: String,
    pub suffix: String,
    pub new_ext: String,
    pub use_regex: bool,
}

/// The stem of a name, or empty when it has none.
pub open spec fn stem_or_empty(name: Seq<char>) -> Seq<char> {
    match file_stem_of(name) {
        Some(s) => s,
        None => Seq::empty(),
    }
}

/// "." and the extension of a name, or empty when it has none.
pub open spec fn dotted_extension(name: Seq<char>) -> Seq<char> {
    match extension_of(name) {
        Some(e) => "."@ + e,
        None => Seq::empty(),
    }
}

/// The new name of `name` under the rename parameters, `number` being its
/// number in numbering mode.
pub open spec fn renamed(
    name: Seq<char>,
    mode: u32,
    find: Seq<char>,
    rep: Seq<char>,
    prefix: Seq<char>,
    suffix: Seq<char>,
    number: u32,
    new_ext: Seq<char>,
    use_regex: bool,
) -> Seq<char> {
    if mode == 0 {
        if find.len() == 0 {
            name
        } else if use_regex {
            if regex_compiles(find) { regex_replaced(find, name, rep) } else { name }
        } else {
            replace_text(name, find, rep)
        }
    } else if mode == 1 {
        prefix + name + suffix
    } else if mode == 2 {
        if prefix.len() > 0 {
            prefix + zero_padded(number as nat, 3) + dotted_extension(name)
        } else {
            stem_or_empty(name) + "_"@ + zero_padded(number as nat, 3) + dotted_extension(name)
        }
    } else if mode == 3 {
        if new_ext.len() == 0 {
            stem_or_empty(name)
        } else if has_prefix(new_ext, "."@) {
            stem_or_empty(name) + new_ext
        } else {
            stem_or_empty(name) + "."@ + new_ext
        }
    } else {
        name
    }
}

/// The new name of `name` under the rename parameters.
pub fn compute_new_name(
    name: &str,
    mode: u32,
    find: &str,
    replace_with: &str,
    prefix: &str,
    suffix: &str,
    number: u32,
    new_ext: &str,
    use_regex: bool,
) -> (res: String)
    ensures
        res@ == renamed(name@, mode, find@, replace_with@, prefix@, suffix@, number, new_ext@, use_regex),
{
    if mode == 0 {
        if find.unicode_len() == 0 {
            return owned(name);
        }
        if use_regex {
            match compile(find) {
                Some(p) => replace_all(&p, name, replace_with),
                None => owned(name),
            }
        } else {
            replace(name, find, replace_with)
        }
    } else if mode == 1 {
        concat3(prefix, name, suffix)
    } else if mode == 2 {
        let ext = match path_extension(name) {
            Some(e) => concat2(".", e.as_str()),
            None => String::new(),
        };
        let num = zero_padded_text(number as u64, 3);
        if prefix.unicode_len() > 0 {
            concat3(prefix, num.as_str(), ext.as_str())
        } else {
            let stem = match path_file_stem(name) {
                Some(s) => s,
                None => String::new(),
            };
            let mut res = concat3(stem.as_str(), "_", num.as_str());
            res.append(ext.as_str());
            res
        }
    } else if mode == 3 {
        let stem = match path_file_stem(name) {
            Some(s) => s,
            None => String::new(),
        };
        if new_ext.unicode_len() == 0 {
            stem
        } else if starts_with(new_ext, ".") {
            concat2(stem.as_str(), new_ext)
        } else {
            concat3(stem.as_str(), ".", new_ext)
        }
    } else {
        owned(name)
    }
}

/// The directory a file is renamed in: its parent, or the path itself when
/// it has none.
pub open spec fn rename_dir(path: Seq<char>) -> Seq<char> {
    match parent_of(path) {
        Some(d) => d,
        None => path,
    }
}

/// The target of renaming the file at `path` under the parameters, with
/// number `number`.
pub open spec fn rename_target(path: Seq<char>, p: RenameParams, number: u32) -> Seq<char> {
    joined(
        rename_dir(path),
        renamed(name_or_empty(path), p.mode, p.find@, p.replace@, p.prefix@, p.suffix@, number, p.new_ext@, p.use_regex),
    )
}

/// The renames of a batch: file i gets number `start + i`; pairs whose
/// target is the same path as the source are left out.
pub open spec fn rename_pairs(files: Seq<Seq<char>>, p: RenameParams, start: u32) -> Seq<(Seq<char>, Seq<char>)>
    decreases files.len(),
{
    if files.len() == 0 {
        Seq::empty()
    } else {
        let rest = rename_pairs(files.drop_last(), p, start);
        let i = files.len() - 1;
        let target = rename_target(files.last(), p, (start + i) as u32);
        if same_path(files.last(), target) {
            rest
        } else {
            rest.push((files.last(), target))
        }
    }
}

/// The (from, to) renames that a batch rename performs, in file order.
pub fn rename_plan(files: &Vec<String>, params: &RenameParams, start: u32) -> (res: Vec<(String, String)>)
    requires
        files.len() == 0 || start + files.len() - 1 <= u32::MAX,
    ensures
        res@.map_values(|q: (String, String)| (q.0@, q.1@))
            == rename_pairs(files@.map_values(|f: String| f@), *params, start),
{
    let ghost fs = files@.map_values(|f: String| f@);
    let mut res: Vec<(String, String)> = Vec::new();
    let mut i: usize = 0;
    while i < files.len()
        invariant
            files.len() == 0 || start + files.len() - 1 <= u32::MAX,
            i <= files.len(),
            fs == files@.map_values(|f: String| f@),
            res@.map_values(|q: (String, String)| (q.0@, q.1@)) == rename_pairs(fs.take(i as int), *params, start),
        decreases files.len() - i,
    {
        let f = &files[i];
        let name = file_name_or_empty(f.as_str());
        let number: u32 = start + i as u32;
        let new_name = compute_new_name(
            name.as_str(),
            params.mode,
            params.find.as_str(),
            params.replace.as_str(),
            params.prefix.as_str(),
            params.suffix.as_str(),
            number,
            params.new_ext.as_str(),
            params.use_regex,
        );
        let dir = match path_parent(f.as_str()) {
            Some(d) => d,
            None => owned(f.as_str()),
        };
        let target = path_join(dir.as_str(), new_name.as_str());
        proof {
            assert(fs.take(i + 1).drop_last() =~= fs.take(i as int));
            assert(fs.take(i + 1).last() == f@);
            assert(target@ == rename_target(f@, *params, number));
        }
        if !paths_equal(f.as_str(), target.as_str()) {
            let ghost before = res@.map_values(|q: (String, String)| (q.0@, q.1@));
            let from = owned(f.as_str());
            let ghost pair = (from@, target@);
            res.push((from, target));
            assert(res@.map_values(|q: (String, String)| (q.0@, q.1@)) =~= before.push(pair));
        }
        i += 1;
    }
    assert(fs.take(i as int) =~= fs);
    res
}

/// How many files the rename preview shows.
pub const PREVIEW_ROWS: usize = 20;

/// The rows of the rename preview: for each of the first files, its name
/// and the name it would get.
pub open spec fn preview_rows(files: Seq<Seq<char>>, p: RenameParams, start: u32) -> Seq<(Seq<char>, Seq<char>)> {
    let n = if files.len() < PREVIEW_ROWS { files.len() } else { PREVIEW_ROWS as nat };
    Seq::new(n, |i: int| (
        name_or_empty(files[i]),
        renamed(name_or_empty(files[i]), p.mode, p.find@, p.replace@, p.prefix@, p.suffix@, (start + i) as u32,
            p.new_ext@, p.use_regex),
    ))
}

/// The name and new name of each of the first files of a batch rename.
pub fn rename_preview(files: &Vec<String>, params: &RenameParams, start: u32) -> (res: Vec<(String, String)>)
    requires
        files.len() == 0 || start + (if files.len() < PREVIEW_ROWS { files.len() } else { PREVIEW_ROWS }) - 1 <= u32::MAX,
    ensures
        res@.map_values(|q: (String, String)| (q.0@, q.1@))
            == preview_rows(files@.map_values(|f: String| f@), *params, start),
{
    let ghost fs = files@.map_values(|f: String| f@);
    let n = if files.len() < PREVIEW_ROWS { files.len() } else { PREVIEW_ROWS };
    let mut res: Vec<(String, String)> = Vec::new();
    let mut i: usize = 0;
    while i < n
        invariant
            files.len() == 0 || start + (if files.len() < PREVIEW_ROWS { files.len() } else { PREVIEW_ROWS }) - 1 <= u32::MAX,
            n <= files.len(),
            n <= PREVIEW_ROWS,
            n == (if files.len() < PREVIEW_ROWS { files.len() } else { PREVIEW_ROWS }),
            i <= n,
            fs == files@.map_values(|f: String| f@),
            res@.map_values(|q: (String, String)| (q.0@, q.1@)) == preview_rows(fs, *params, start).take(i as int),
        decreases n - i,
    {
        let name = file_name_or_empty(files[i].as_str());
        let number: u32 = start + i as u32;
        let new_name = compute_new_name(
            name.as_str(),
            params.mode,
            params.find.as_str(),
            params.replace.as_str(),
            params.prefix.as_str(),
            params.suffix.as_str(),
            number,
            params.new_ext.as_str(),
            params.use_regex,
        );
        let ghost before = res@.map_values(|q: (String, String)| (q.0@, q.1@));
        let ghost pair = (name@, new_name@);
        res.push((name, new_name));
        assert(res@.map_values(|q: (String, String)| (q.0@, q.1@)) =~= before.push(pair));
        assert(preview_rows(fs, *params, start).take(i + 1) =~= preview_rows(fs, *params, start).take(i as int).push(pair));
        i += 1;
    }
    assert(preview_rows(fs, *params, start).take(n as int) =~= preview_rows(fs, *params, start));
    res
}

/// The rename preview shows what renaming does: each previewed file is
/// moved, in its own directory, to the new name the preview shows for it.
pub proof fn lemma_preview_matches_rename(files: Seq<Seq<char>>, p: RenameParams, start: u32, i: int)
    requires
        0 <= i < files.len(),
        i < PREVIEW_ROWS,
    ensures
        preview_rows(files, p, start)[i].0 == name_or_empty(files[i]),
        rename_target(files[i], p, (start + i) as u32) == joined(rename_dir(files[i]), preview_rows(files, p, start)[i].1),
{
}

} // verus!

verus! {

/// Numbering writes each file's number with at least three digits, which
/// read back as that number, and keeps the file's extension: after the
/// prefix when one is given, otherwise after the file's stem and an
/// underscore.
pub proof fn lemma_numbering(
    name: Seq<char>,
    find: Seq<char>,
    rep: Seq<char>,
    prefix: Seq<char>,
    suffix: Seq<char>,
    number: u32,
    new_ext: Seq<char>,
    use_regex: bool,
)
    ensures
        exists|digits: Seq<char>| {
            &&& digits.len() >= 3
            &&& (number < 1000 ==> digits.len() == 3)
            &&& crate::text::numeral_value(digits, 10) == number
            &&& forall|i: int| 0 <= i < digits.len() ==> '0' <= #[trigger] digits[i] <= '9'
            &&& #[trigger] renamed(name, 2, find, rep, prefix, suffix, number, new_ext, use_regex) == if prefix.len() > 0 {
                prefix + digits + dotted_extension(name)
            } else {
                stem_or_empty(name) + seq!['_'] + digits + dotted_extension(name)
            }
        },
{
    reveal_strlit("_");
    crate::text::lemma_zero_padded_reads_back(number as nat, 3);
    crate::text::lemma_decimal_reads_back(number as nat);
    let digits = zero_padded(number as nat, 3);
    if number < 1000 {
        assert(crate::text::decimal(number as nat).len() <= 3) by {
            lemma_decimal_short(number as nat);
        }
    }
    assert("_"@ =~= seq!['_']);
    assert(renamed(name, 2, find, rep, prefix, suffix, number, new_ext, use_regex) == if prefix.len() > 0 {
        prefix + digits + dotted_extension(name)
    } else {
        stem_or_empty(name) + seq!['_'] + digits + dotted_extension(name)
    });
}

proof fn lemma_decimal_short(n: nat)
    requires
        n < 1000,
    ensures
        crate::text::decimal(n).len() <= 3,
{
    let a = n / 10;
    let b = a / 10;
    if n >= 10 {
        if a >= 10 {
            assert(b < 10);
            assert(crate::text::decimal(b).len() == 1);
            assert(crate::text::decimal(a).len() == crate::text::decimal(b).len() + 1);
        } else {
            assert(crate::text::decimal(a).len() == 1);
        }
        assert(crate::text::decimal(n).len() == crate::text::decimal(a).len() + 1);
    }
}

} // verus!
