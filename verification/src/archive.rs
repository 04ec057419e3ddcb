//! Archives: which files are archives, and the commands that extract and
//! create them.
use vstd::prelude::*;
use crate::text::{unicode_lowercase, has_suffix, to_lowercase, ends_with, owned, concat2};
use crate::paths::{parent_of, joined, file_stem_of, name_or_empty, path_parent, path_join, path_file_stem, file_name_or_empty};

verus! {

/// Whether a lowercased path names an archive by its ending.
pub open spec fn archive_suffix(p: Seq<char>) -> bool {
    has_suffix(p, ".zip"@) || has_suffix(p, ".tar.gz"@) || has_suffix(p, ".tgz"@)
        || has_suffix(p, ".tar.xz"@) || has_suffix(p, ".txz"@) || has_suffix(p, ".tar.bz2"@)
        || has_suffix(p, ".tar"@) || has_suffix(p, ".7z"@) || has_suffix(p, ".rar"@)
}

/// Whether a path names an archive: its lowercased text ends in .zip,
/// .tar.gz, .tgz, .tar.xz, .txz, .tar.bz2, .tar, .7z or .rar.
pub fn is_archive(path: &str) -> (res: bool)
    ensures
        res == archive_suffix(unicode_lowercase(path@)),
{
    let l = to_lowercase(path);
    let p = l.as_str();
    ends_with(p, ".zip") || ends_with(p, ".tar.gz") || ends_with(p, ".tgz") || ends_with(p, ".tar.xz")
        || ends_with(p, ".txz") || ends_with(p, ".tar.bz2") || ends_with(p, ".tar") || ends_with(p, ".7z")
        || ends_with(p, ".rar")
}

/// A program to run, its arguments, and the directory to run it in (the
/// current one when `None`).
pub struct Command {
    pub program: String,
    pub args: Vec<String>,
    pub cwd: Option<String>,
}

/// A command as values.
pub struct CommandView {
    pub program: Seq<char>,
    pub args: Seq<Seq<char>>,
    pub cwd: Option<Seq<char>>,
}

impl View for Command {
    type V = CommandView;

    open spec fn view(&self) -> CommandView {
        CommandView {
            program: self.program@,
            args: self.args@.map_values(|a: String| a@),
            cwd: match self.cwd {
                Some(c) => Some(c@),
                None => None,
            },
        }
    }
}

/// The command that extracts `archive` into `dest`, chosen by the
/// lowercased archive path; an error naming that path when no tool handles
/// it.
pub open spec fn extract_command_for(archive: Seq<char>, dest: Seq<char>) -> Result<CommandView, Seq<char>> {
    let e = unicode_lowercase(archive);
    if has_suffix(e, ".zip"@) {
        Ok(CommandView { program: "unzip"@, args: seq!["-o"@, archive, "-d"@, dest], cwd: None })
    } else if has_suffix(e, ".tar.gz"@) || has_suffix(e, ".tgz"@) {
        Ok(CommandView { program: "tar"@, args: seq!["xzf"@, archive, "-C"@, dest], cwd: None })
    } else if has_suffix(e, ".tar.xz"@) || has_suffix(e, ".txz"@) {
        Ok(CommandView { program: "tar"@, args: seq!["xJf"@, archive, "-C"@, dest], cwd: None })
    } else if has_suffix(e, ".tar.bz2"@) || has_suffix(e, ".tbz2"@) {
        Ok(CommandView { program: "tar"@, args: seq!["xjf"@, archive, "-C"@, dest], cwd: None })
    } else if has_suffix(e, ".tar"@) {
        Ok(CommandView { program: "tar"@, args: seq!["xf"@, archive, "-C"@, dest], cwd: None })
    } else if has_suffix(e, ".7z"@) {
        Ok(CommandView { program: "7z"@, args: seq!["x"@, archive, "-o"@ + dest], cwd: None })
    } else if has_suffix(e, ".rar"@) {
        Ok(CommandView { program: "unrar"@, args: seq!["x"@, archive, dest], cwd: None })
    } else {
        Err("Unsupported archive format: "@ + e)
    }
}

fn command(program: &str, args: Vec<String>) -> (res: Command)
    ensures
        res@ == (CommandView { program: program@, args: args@.map_values(|a: String| a@), cwd: None }),
{
    Command { program: owned(program), args, cwd: None }
}

/// The command that extracts `archive` into `dest`.
pub fn extract_command(archive: &str, dest: &str) -> (res: Result<Command, String>)
    ensures
        match (res, extract_command_for(archive@, dest@)) {
            (Ok(c), Ok(v)) => c@ == v,
            (Err(m), Err(v)) => m@ == v,
            _ => false,
        },
{
    let l = to_lowercase(archive);
    let e = l.as_str();
    let a = owned(archive);
    let d = owned(dest);
    let res = if ends_with(e, ".zip") {
        Ok(command("unzip", vec![owned("-o"), a, owned("-d"), d]))
    } else if ends_with(e, ".tar.gz") || ends_with(e, ".tgz") {
        Ok(command("tar", vec![owned("xzf"), a, owned("-C"), d]))
    } else if ends_with(e, ".tar.xz") || ends_with(e, ".txz") {
        Ok(command("tar", vec![owned("xJf"), a, owned("-C"), d]))
    } else if ends_with(e, ".tar.bz2") || ends_with(e, ".tbz2") {
        Ok(command("tar", vec![owned("xjf"), a, owned("-C"), d]))
    } else if ends_with(e, ".tar") {
        Ok(command("tar", vec![owned("xf"), a, owned("-C"), d]))
    } else if ends_with(e, ".7z") {
        Ok(command("7z", vec![owned("x"), a, concat2("-o", dest)]))
    } else if ends_with(e, ".rar") {
        Ok(command("unrar", vec![owned("x"), a, d]))
    } else {
        Err(concat2("Unsupported archive format: ", e))
    };
    proof {
        if res is Ok && extract_command_for(archive@, dest@) is Ok {
            assert(res->Ok_0@.args =~= extract_command_for(archive@, dest@)->Ok_0.args);
        }
    }
    res
}

/// The directory an archive is created in or extracted next to: the parent
/// of a path, or "/" when it has none.
pub open spec fn parent_or_root(p: Seq<char>) -> Seq<char> {
    match parent_of(p) {
        Some(d) => d,
        None => "/"@,
    }
}

/// The parent of a path, or "/" when it has none.
pub fn parent_or_root_of(p: &str) -> (res: String)
    ensures
        res@ == parent_or_root(p@),
{
    match path_parent(p) {
        Some(d) => d,
        None => owned("/"),
    }
}

/// The file names of paths, empty for a path without one.
pub open spec fn names_of(files: Seq<Seq<char>>) -> Seq<Seq<char>> {
    files.map_values(|f: Seq<char>| name_or_empty(f))
}

/// The command that packs `files` into `archive`, run in the directory of
/// the first file so that the archive holds the bare names: zip for .zip,
/// gzip-compressed tar for .tar.gz and .tgz, xz-compressed tar for .tar.xz,
/// plain tar otherwise.
pub open spec fn compress_command_for(files: Seq<Seq<char>>, archive: Seq<char>) -> CommandView {
    let e = unicode_lowercase(archive);
    let (program, flag) = if has_suffix(e, ".zip"@) {
        ("zip"@, "-r"@)
    } else if has_suffix(e, ".tar.gz"@) || has_suffix(e, ".tgz"@) {
        ("tar"@, "czf"@)
    } else if has_suffix(e, ".tar.xz"@) {
        ("tar"@, "cJf"@)
    } else {
        ("tar"@, "cf"@)
    };
    CommandView { program: program, args: seq![flag, archive] + names_of(files), cwd: Some(parent_or_root(files[0])) }
}

/// The command that packs `files` (at least one) into `archive`.
pub fn compress_command(files: &Vec<String>, archive: &str) -> (res: Command)
    requires
        files.len() > 0,
    ensures
        res@ == compress_command_for(files@.map_values(|f: String| f@), archive@),
{
    let ghost fs = files@.map_values(|f: String| f@);
    let l = to_lowercase(archive);
    let e = l.as_str();
    let (program, flag) = if ends_with(e, ".zip") {
        ("zip", "-r")
    } else if ends_with(e, ".tar.gz") || ends_with(e, ".tgz") {
        ("tar", "czf")
    } else if ends_with(e, ".tar.xz") {
        ("tar", "cJf")
    } else {
        ("tar", "cf")
    };
    let mut args: Vec<String> = vec![owned(flag), owned(archive)];
    let mut i: usize = 0;
    while i < files.len()
        invariant
            i <= files.len(),
            fs == files@.map_values(|f: String| f@),
            args@.map_values(|a: String| a@) == seq![flag@, archive@] + names_of(fs.take(i as int)),
        decreases files.len() - i,
    {
        let ghost before = args@.map_values(|a: String| a@);
        let n = file_name_or_empty(files[i].as_str());
        assert(files@[i as int]@ == fs[i as int]);
        let ghost nv = n@;
        args.push(n);
        assert(args@.map_values(|a: String| a@) =~= before.push(nv));
        assert(fs.take(i + 1) =~= fs.take(i as int).push(fs[i as int]));
        assert(names_of(fs.take(i + 1)) =~= names_of(fs.take(i as int)).push(nv));
        assert(args@.map_values(|a: String| a@) =~= seq![flag@, archive@] + names_of(fs.take(i + 1)));
        i += 1;
    }
    assert(fs.take(i as int) =~= fs);
    let cwd = parent_or_root_of(files[0].as_str());
    Command { program: owned(program), args, cwd: Some(cwd) }
}

/// The archive name proposed for packing `files`: the single file's name
/// with ".tar.gz", or "archive.tar.gz" for several.
pub fn default_archive_name(files: &Vec<String>) -> (res: String)
    ensures
        res@ == if files.len() == 1 { name_or_empty(files@[0]@) + ".tar.gz"@ } else { "archive.tar.gz"@ },
{
    if files.len() == 1 {
        let n = file_name_or_empty(files[0].as_str());
        concat2(n.as_str(), ".tar.gz")
    } else {
        owned("archive.tar.gz")
    }
}

/// The folder proposed for extracting `archive`: next to it, named after
/// its stem.
pub fn default_extract_dest(archive: &str) -> (res: String)
    ensures
        res@ == joined(parent_or_root(archive@), match file_stem_of(archive@) { Some(s) => s, None => Seq::empty() }),
{
    let dir = parent_or_root_of(archive);
    let stem = match path_file_stem(archive) {
        Some(s) => s,
        None => String::new(),
    };
    path_join(dir.as_str(), stem.as_str())
}

/// What running an archive command comes to: an error naming the program
/// when it could not be started, the text of its error output when it
/// failed, success otherwise.
pub fn command_result(program: &str, spawn_error: Option<&str>, success: bool, stderr: &Vec<u8>) -> (res: Result<(), String>)
    ensures
        match spawn_error {
            Some(e) => res matches Err(m) && m@ == program@ + ": "@ + e@,
            None => if success {
                res is Ok
            } else {
                res matches Err(m) && m@ == crate::tags::utf8_lossy(stderr@)
            },
        },
{
    match spawn_error {
        Some(e) => Err(crate::text::concat3(program, ": ", e)),
        None => if success {
            Ok(())
        } else {
            Err(crate::tags::decode_lossy(stderr))
        },
    }
}

/// The question of the extract dialog for `archive`.
pub fn extract_question(archive: &str) -> (res: String)
    ensures
        res@ == "Extract \""@ + name_or_empty(archive@) + "\" to:"@,
{
    let name = file_name_or_empty(archive);
    crate::text::concat3("Extract \"", name.as_str(), "\" to:")
}

/// The question of the compress dialog for `count` items.
pub fn compress_question(count: usize) -> (res: String)
    ensures
        res@ == "Compress "@ + crate::text::decimal(count as nat) + " item(s):"@,
{
    let n = crate::text::decimal_text(count as u64);
    crate::text::concat3("Compress ", n.as_str(), " item(s):")
}

/// Every file the application recognises as an archive can be extracted:
/// some tool is chosen for it.
pub proof fn lemma_archives_extract(archive: Seq<char>, dest: Seq<char>)
    requires
        archive_suffix(unicode_lowercase(archive)),
    ensures
        extract_command_for(archive, dest) is Ok,
{
}

} // verus!

verus! {
proof fn lemma_suffix_char(e: Seq<char>, s: Seq<char>, k: int)
    requires
        has_suffix(e, s),
        1 <= k <= s.len(),
    ensures
        e[e.len() - k] == s[s.len() - k],
{
    assert(e.subrange(e.len() - s.len(), e.len() as int)[s.len() - k] == e[e.len() - k]);
}

/// A zip archive is unpacked with unzip -o, into -d dest.
pub proof fn lemma_extract_zip(archive: Seq<char>, dest: Seq<char>)
    requires
        has_suffix(unicode_lowercase(archive), ".zip"@),
    ensures
        extract_command_for(archive, dest) == Ok::<CommandView, Seq<char>>(CommandView {
            program: "unzip"@,
            args: seq![
                "-o"@,
                archive,
                "-d"@,
                dest,
            ],
            cwd: None,
        }),
{
    reveal_strlit(".zip");
    reveal_strlit(".tar.gz");
    reveal_strlit(".tgz");
    reveal_strlit(".tar.xz");
    reveal_strlit(".txz");
    reveal_strlit(".tar.bz2");
    reveal_strlit(".tbz2");
    reveal_strlit(".tar");
    reveal_strlit(".7z");
    reveal_strlit(".rar");
    let e = unicode_lowercase(archive);
    if has_suffix(e, ".zip"@) { lemma_suffix_char(e, ".zip"@, 1); }
    if has_suffix(e, ".tar.gz"@) { lemma_suffix_char(e, ".tar.gz"@, 1); lemma_suffix_char(e, ".tar.gz"@, 2); }
    if has_suffix(e, ".tgz"@) { lemma_suffix_char(e, ".tgz"@, 1); lemma_suffix_char(e, ".tgz"@, 2); }
    if has_suffix(e, ".tar.xz"@) { lemma_suffix_char(e, ".tar.xz"@, 1); lemma_suffix_char(e, ".tar.xz"@, 2); }
    if has_suffix(e, ".txz"@) { lemma_suffix_char(e, ".txz"@, 1); lemma_suffix_char(e, ".txz"@, 2); }
    if has_suffix(e, ".tar.bz2"@) { lemma_suffix_char(e, ".tar.bz2"@, 1); }
    if has_suffix(e, ".tbz2"@) { lemma_suffix_char(e, ".tbz2"@, 1); }
    if has_suffix(e, ".tar"@) { lemma_suffix_char(e, ".tar"@, 1); lemma_suffix_char(e, ".tar"@, 3); }
    if has_suffix(e, ".7z"@) { lemma_suffix_char(e, ".7z"@, 1); lemma_suffix_char(e, ".7z"@, 2); }
    if has_suffix(e, ".rar"@) { lemma_suffix_char(e, ".rar"@, 1); lemma_suffix_char(e, ".rar"@, 3); }
}

/// A gzip-compressed tar (.tar.gz or .tgz) is unpacked with tar with the gzip flag `xzf`, into -C dest.
pub proof fn lemma_extract_gzip(archive: Seq<char>, dest: Seq<char>)
    requires
        has_suffix(unicode_lowercase(archive), ".tar.gz"@) || has_suffix(unicode_lowercase(archive), ".tgz"@),
    ensures
        extract_command_for(archive, dest) == Ok::<CommandView, Seq<char>>(CommandView {
            program: "tar"@,
            args: seq![
                "xzf"@,
                archive,
                "-C"@,
                dest,
            ],
            cwd: None,
        }),
{
    reveal_strlit(".zip");
    reveal_strlit(".tar.gz");
    reveal_strlit(".tgz");
    reveal_strlit(".tar.xz");
    reveal_strlit(".txz");
    reveal_strlit(".tar.bz2");
    reveal_strlit(".tbz2");
    reveal_strlit(".tar");
    reveal_strlit(".7z");
    reveal_strlit(".rar");
    let e = unicode_lowercase(archive);
    if has_suffix(e, ".zip"@) { lemma_suffix_char(e, ".zip"@, 1); }
    if has_suffix(e, ".tar.gz"@) { lemma_suffix_char(e, ".tar.gz"@, 1); lemma_suffix_char(e, ".tar.gz"@, 2); }
    if has_suffix(e, ".tgz"@) { lemma_suffix_char(e, ".tgz"@, 1); lemma_suffix_char(e, ".tgz"@, 2); }
    if has_suffix(e, ".tar.xz"@) { lemma_suffix_char(e, ".tar.xz"@, 1); lemma_suffix_char(e, ".tar.xz"@, 2); }
    if has_suffix(e, ".txz"@) { lemma_suffix_char(e, ".txz"@, 1); lemma_suffix_char(e, ".txz"@, 2); }
    if has_suffix(e, ".tar.bz2"@) { lemma_suffix_char(e, ".tar.bz2"@, 1); }
    if has_suffix(e, ".tbz2"@) { lemma_suffix_char(e, ".tbz2"@, 1); }
    if has_suffix(e, ".tar"@) { lemma_suffix_char(e, ".tar"@, 1); lemma_suffix_char(e, ".tar"@, 3); }
    if has_suffix(e, ".7z"@) { lemma_suffix_char(e, ".7z"@, 1); lemma_suffix_char(e, ".7z"@, 2); }
    if has_suffix(e, ".rar"@) { lemma_suffix_char(e, ".rar"@, 1); lemma_suffix_char(e, ".rar"@, 3); }
}

/// An xz-compressed tar (.tar.xz or .txz) is unpacked with tar with the xz flag `xJf`, into -C dest.
pub proof fn lemma_extract_xz(archive: Seq<char>, dest: Seq<char>)
    requires
        has_suffix(unicode_lowercase(archive), ".tar.xz"@) || has_suffix(unicode_lowercase(archive), ".txz"@),
    ensures
        extract_command_for(archive, dest) == Ok::<CommandView, Seq<char>>(CommandView {
            program: "tar"@,
            args: seq![
                "xJf"@,
                archive,
                "-C"@,
                dest,
            ],
            cwd: None,
        }),
{
    reveal_strlit(".zip");
    reveal_strlit(".tar.gz");
    reveal_strlit(".tgz");
    reveal_strlit(".tar.xz");
    reveal_strlit(".txz");
    reveal_strlit(".tar.bz2");
    reveal_strlit(".tbz2");
    reveal_strlit(".tar");
    reveal_strlit(".7z");
    reveal_strlit(".rar");
    let e = unicode_lowercase(archive);
    if has_suffix(e, ".zip"@) { lemma_suffix_char(e, ".zip"@, 1); }
    if has_suffix(e, ".tar.gz"@) { lemma_suffix_char(e, ".tar.gz"@, 1); lemma_suffix_char(e, ".tar.gz"@, 2); }
    if has_suffix(e, ".tgz"@) { lemma_suffix_char(e, ".tgz"@, 1); lemma_suffix_char(e, ".tgz"@, 2); }
    if has_suffix(e, ".tar.xz"@) { lemma_suffix_char(e, ".tar.xz"@, 1); lemma_suffix_char(e, ".tar.xz"@, 2); }
    if has_suffix(e, ".txz"@) { lemma_suffix_char(e, ".txz"@, 1); lemma_suffix_char(e, ".txz"@, 2); }
    if has_suffix(e, ".tar.bz2"@) { lemma_suffix_char(e, ".tar.bz2"@, 1); }
    if has_suffix(e, ".tbz2"@) { lemma_suffix_char(e, ".tbz2"@, 1); }
    if has_suffix(e, ".tar"@) { lemma_suffix_char(e, ".tar"@, 1); lemma_suffix_char(e, ".tar"@, 3); }
    if has_suffix(e, ".7z"@) { lemma_suffix_char(e, ".7z"@, 1); lemma_suffix_char(e, ".7z"@, 2); }
    if has_suffix(e, ".rar"@) { lemma_suffix_char(e, ".rar"@, 1); lemma_suffix_char(e, ".rar"@, 3); }
}

/// A bzip2-compressed tar (.tar.bz2 or .tbz2) is unpacked with tar with the bzip2 flag `xjf`, into -C dest.
pub proof fn lemma_extract_bzip2(archive: Seq<char>, dest: Seq<char>)
    requires
        has_suffix(unicode_lowercase(archive), ".tar.bz2"@) || has_suffix(unicode_lowercase(archive), ".tbz2"@),
    ensures
        extract_command_for(archive, dest) == Ok::<CommandView, Seq<char>>(CommandView {
            program: "tar"@,
            args: seq![
                "xjf"@,
                archive,
                "-C"@,
                dest,
            ],
            cwd: None,
        }),
{
    reveal_strlit(".zip");
    reveal_strlit(".tar.gz");
    reveal_strlit(".tgz");
    reveal_strlit(".tar.xz");
    reveal_strlit(".txz");
    reveal_strlit(".tar.bz2");
    reveal_strlit(".tbz2");
    reveal_strlit(".tar");
    reveal_strlit(".7z");
    reveal_strlit(".rar");
    let e = unicode_lowercase(archive);
    if has_suffix(e, ".zip"@) { lemma_suffix_char(e, ".zip"@, 1); }
    if has_suffix(e, ".tar.gz"@) { lemma_suffix_char(e, ".tar.gz"@, 1); lemma_suffix_char(e, ".tar.gz"@, 2); }
    if has_suffix(e, ".tgz"@) { lemma_suffix_char(e, ".tgz"@, 1); lemma_suffix_char(e, ".tgz"@, 2); }
    if has_suffix(e, ".tar.xz"@) { lemma_suffix_char(e, ".tar.xz"@, 1); lemma_suffix_char(e, ".tar.xz"@, 2); }
    if has_suffix(e, ".txz"@) { lemma_suffix_char(e, ".txz"@, 1); lemma_suffix_char(e, ".txz"@, 2); }
    if has_suffix(e, ".tar.bz2"@) { lemma_suffix_char(e, ".tar.bz2"@, 1); }
    if has_suffix(e, ".tbz2"@) { lemma_suffix_char(e, ".tbz2"@, 1); }
    if has_suffix(e, ".tar"@) { lemma_suffix_char(e, ".tar"@, 1); lemma_suffix_char(e, ".tar"@, 3); }
    if has_suffix(e, ".7z"@) { lemma_suffix_char(e, ".7z"@, 1); lemma_suffix_char(e, ".7z"@, 2); }
    if has_suffix(e, ".rar"@) { lemma_suffix_char(e, ".rar"@, 1); lemma_suffix_char(e, ".rar"@, 3); }
}

/// An uncompressed .tar is unpacked with plain tar `xf`, into -C dest.
pub proof fn lemma_extract_tar(archive: Seq<char>, dest: Seq<char>)
    requires
        has_suffix(unicode_lowercase(archive), ".tar"@),
    ensures
        extract_command_for(archive, dest) == Ok::<CommandView, Seq<char>>(CommandView {
            program: "tar"@,
            args: seq![
                "xf"@,
                archive,
                "-C"@,
                dest,
            ],
            cwd: None,
        }),
{
    reveal_strlit(".zip");
    reveal_strlit(".tar.gz");
    reveal_strlit(".tgz");
    reveal_strlit(".tar.xz");
    reveal_strlit(".txz");
    reveal_strlit(".tar.bz2");
    reveal_strlit(".tbz2");
    reveal_strlit(".tar");
    reveal_strlit(".7z");
    reveal_strlit(".rar");
    let e = unicode_lowercase(archive);
    if has_suffix(e, ".zip"@) { lemma_suffix_char(e, ".zip"@, 1); }
    if has_suffix(e, ".tar.gz"@) { lemma_suffix_char(e, ".tar.gz"@, 1); lemma_suffix_char(e, ".tar.gz"@, 2); }
    if has_suffix(e, ".tgz"@) { lemma_suffix_char(e, ".tgz"@, 1); lemma_suffix_char(e, ".tgz"@, 2); }
    if has_suffix(e, ".tar.xz"@) { lemma_suffix_char(e, ".tar.xz"@, 1); lemma_suffix_char(e, ".tar.xz"@, 2); }
    if has_suffix(e, ".txz"@) { lemma_suffix_char(e, ".txz"@, 1); lemma_suffix_char(e, ".txz"@, 2); }
    if has_suffix(e, ".tar.bz2"@) { lemma_suffix_char(e, ".tar.bz2"@, 1); }
    if has_suffix(e, ".tbz2"@) { lemma_suffix_char(e, ".tbz2"@, 1); }
    if has_suffix(e, ".tar"@) { lemma_suffix_char(e, ".tar"@, 1); lemma_suffix_char(e, ".tar"@, 3); }
    if has_suffix(e, ".7z"@) { lemma_suffix_char(e, ".7z"@, 1); lemma_suffix_char(e, ".7z"@, 2); }
    if has_suffix(e, ".rar"@) { lemma_suffix_char(e, ".rar"@, 1); lemma_suffix_char(e, ".rar"@, 3); }
}

/// A 7z archive is unpacked with `7z x` with -o glued to the destination.
pub proof fn lemma_extract_seven_z(archive: Seq<char>, dest: Seq<char>)
    requires
        has_suffix(unicode_lowercase(archive), ".7z"@),
    ensures
        extract_command_for(archive, dest) == Ok::<CommandView, Seq<char>>(CommandView {
            program: "7z"@,
            args: seq![
                "x"@,
                archive,
                "-o"@ + dest,
            ],
            cwd: None,
        }),
{
    reveal_strlit(".zip");
    reveal_strlit(".tar.gz");
    reveal_strlit(".tgz");
    reveal_strlit(".tar.xz");
    reveal_strlit(".txz");
    reveal_strlit(".tar.bz2");
    reveal_strlit(".tbz2");
    reveal_strlit(".tar");
    reveal_strlit(".7z");
    reveal_strlit(".rar");
    let e = unicode_lowercase(archive);
    if has_suffix(e, ".zip"@) { lemma_suffix_char(e, ".zip"@, 1); }
    if has_suffix(e, ".tar.gz"@) { lemma_suffix_char(e, ".tar.gz"@, 1); lemma_suffix_char(e, ".tar.gz"@, 2); }
    if has_suffix(e, ".tgz"@) { lemma_suffix_char(e, ".tgz"@, 1); lemma_suffix_char(e, ".tgz"@, 2); }
    if has_suffix(e, ".tar.xz"@) { lemma_suffix_char(e, ".tar.xz"@, 1); lemma_suffix_char(e, ".tar.xz"@, 2); }
    if has_suffix(e, ".txz"@) { lemma_suffix_char(e, ".txz"@, 1); lemma_suffix_char(e, ".txz"@, 2); }
    if has_suffix(e, ".tar.bz2"@) { lemma_suffix_char(e, ".tar.bz2"@, 1); }
    if has_suffix(e, ".tbz2"@) { lemma_suffix_char(e, ".tbz2"@, 1); }
    if has_suffix(e, ".tar"@) { lemma_suffix_char(e, ".tar"@, 1); lemma_suffix_char(e, ".tar"@, 3); }
    if has_suffix(e, ".7z"@) { lemma_suffix_char(e, ".7z"@, 1); lemma_suffix_char(e, ".7z"@, 2); }
    if has_suffix(e, ".rar"@) { lemma_suffix_char(e, ".rar"@, 1); lemma_suffix_char(e, ".rar"@, 3); }
}

/// A rar archive is unpacked with `unrar x` into dest.
pub proof fn lemma_extract_rar(archive: Seq<char>, dest: Seq<char>)
    requires
        has_suffix(unicode_lowercase(archive), ".rar"@),
    ensures
        extract_command_for(archive, dest) == Ok::<CommandView, Seq<char>>(CommandView {
            program: "unrar"@,
            args: seq![
                "x"@,
                archive,
                dest,
            ],
            cwd: None,
        }),
{
    reveal_strlit(".zip");
    reveal_strlit(".tar.gz");
    reveal_strlit(".tgz");
    reveal_strlit(".tar.xz");
    reveal_strlit(".txz");
    reveal_strlit(".tar.bz2");
    reveal_strlit(".tbz2");
    reveal_strlit(".tar");
    reveal_strlit(".7z");
    reveal_strlit(".rar");
    let e = unicode_lowercase(archive);
    if has_suffix(e, ".zip"@) { lemma_suffix_char(e, ".zip"@, 1); }
    if has_suffix(e, ".tar.gz"@) { lemma_suffix_char(e, ".tar.gz"@, 1); lemma_suffix_char(e, ".tar.gz"@, 2); }
    if has_suffix(e, ".tgz"@) { lemma_suffix_char(e, ".tgz"@, 1); lemma_suffix_char(e, ".tgz"@, 2); }
    if has_suffix(e, ".tar.xz"@) { lemma_suffix_char(e, ".tar.xz"@, 1); lemma_suffix_char(e, ".tar.xz"@, 2); }
    if has_suffix(e, ".txz"@) { lemma_suffix_char(e, ".txz"@, 1); lemma_suffix_char(e, ".txz"@, 2); }
    if has_suffix(e, ".tar.bz2"@) { lemma_suffix_char(e, ".tar.bz2"@, 1); }
    if has_suffix(e, ".tbz2"@) { lemma_suffix_char(e, ".tbz2"@, 1); }
    if has_suffix(e, ".tar"@) { lemma_suffix_char(e, ".tar"@, 1); lemma_suffix_char(e, ".tar"@, 3); }
    if has_suffix(e, ".7z"@) { lemma_suffix_char(e, ".7z"@, 1); lemma_suffix_char(e, ".7z"@, 2); }
    if has_suffix(e, ".rar"@) { lemma_suffix_char(e, ".rar"@, 1); lemma_suffix_char(e, ".rar"@, 3); }
}

/// A path is refused exactly when its lowercased form ends in none of the
/// archive endings that have a tool.
pub proof fn lemma_extract_refuses(archive: Seq<char>, dest: Seq<char>)
    ensures
        extract_command_for(archive, dest) is Err <==> !(
            has_suffix(unicode_lowercase(archive), ".zip"@) || has_suffix(unicode_lowercase(archive), ".tar.gz"@) || has_suffix(unicode_lowercase(archive), ".tgz"@) || has_suffix(unicode_lowercase(archive), ".tar.xz"@) || has_suffix(unicode_lowercase(archive), ".txz"@) || has_suffix(unicode_lowercase(archive), ".tar.bz2"@) || has_suffix(unicode_lowercase(archive), ".tbz2"@) || has_suffix(unicode_lowercase(archive), ".tar"@) || has_suffix(unicode_lowercase(archive), ".7z"@) || has_suffix(unicode_lowercase(archive), ".rar"@)
        ),
{
    reveal_strlit(".zip");
    reveal_strlit(".tar.gz");
    reveal_strlit(".tgz");
    reveal_strlit(".tar.xz");
    reveal_strlit(".txz");
    reveal_strlit(".tar.bz2");
    reveal_strlit(".tbz2");
    reveal_strlit(".tar");
    reveal_strlit(".7z");
    reveal_strlit(".rar");
}

} // verus!

verus! {

/// A .zip archive is made with `zip -r`; the archive comes first, then the file names, and the tool runs
/// in the directory of the first file.
pub proof fn lemma_compress_zip(files: Seq<Seq<char>>, archive: Seq<char>)
    requires
        has_suffix(unicode_lowercase(archive), ".zip"@),
    ensures
        compress_command_for(files, archive) == (CommandView {
            program: "zip"@,
            args: seq!["-r"@, archive] + names_of(files),
            cwd: Some(parent_or_root(files[0])),
        }),
{
    reveal_strlit(".zip");
    reveal_strlit(".tar.gz");
    reveal_strlit(".tgz");
    reveal_strlit(".tar.xz");
    let e = unicode_lowercase(archive);
    if has_suffix(e, ".zip"@) { lemma_suffix_char(e, ".zip"@, 1); }
    if has_suffix(e, ".tar.gz"@) { lemma_suffix_char(e, ".tar.gz"@, 1); lemma_suffix_char(e, ".tar.gz"@, 2); }
    if has_suffix(e, ".tgz"@) { lemma_suffix_char(e, ".tgz"@, 1); lemma_suffix_char(e, ".tgz"@, 2); }
    if has_suffix(e, ".tar.xz"@) { lemma_suffix_char(e, ".tar.xz"@, 1); lemma_suffix_char(e, ".tar.xz"@, 2); }
}

/// A .tar.gz or .tgz archive is made with tar and the gzip flag `czf`; the archive comes first, then the file names, and the tool runs
/// in the directory of the first file.
pub proof fn lemma_compress_gzip(files: Seq<Seq<char>>, archive: Seq<char>)
    requires
        has_suffix(unicode_lowercase(archive), ".tar.gz"@) || has_suffix(unicode_lowercase(archive), ".tgz"@),
    ensures
        compress_command_for(files, archive) == (CommandView {
            program: "tar"@,
            args: seq!["czf"@, archive] + names_of(files),
            cwd: Some(parent_or_root(files[0])),
        }),
{
    reveal_strlit(".zip");
    reveal_strlit(".tar.gz");
    reveal_strlit(".tgz");
    reveal_strlit(".tar.xz");
    let e = unicode_lowercase(archive);
    if has_suffix(e, ".zip"@) { lemma_suffix_char(e, ".zip"@, 1); }
    if has_suffix(e, ".tar.gz"@) { lemma_suffix_char(e, ".tar.gz"@, 1); lemma_suffix_char(e, ".tar.gz"@, 2); }
    if has_suffix(e, ".tgz"@) { lemma_suffix_char(e, ".tgz"@, 1); lemma_suffix_char(e, ".tgz"@, 2); }
    if has_suffix(e, ".tar.xz"@) { lemma_suffix_char(e, ".tar.xz"@, 1); lemma_suffix_char(e, ".tar.xz"@, 2); }
}

/// A .tar.xz archive is made with tar and the xz flag `cJf`; the archive comes first, then the file names, and the tool runs
/// in the directory of the first file.
pub proof fn lemma_compress_xz(files: Seq<Seq<char>>, archive: Seq<char>)
    requires
        has_suffix(unicode_lowercase(archive), ".tar.xz"@),
    ensures
        compress_command_for(files, archive) == (CommandView {
            program: "tar"@,
            args: seq!["cJf"@, archive] + names_of(files),
            cwd: Some(parent_or_root(files[0])),
        }),
{
    reveal_strlit(".zip");
    reveal_strlit(".tar.gz");
    reveal_strlit(".tgz");
    reveal_strlit(".tar.xz");
    let e = unicode_lowercase(archive);
    if has_suffix(e, ".zip"@) { lemma_suffix_char(e, ".zip"@, 1); }
    if has_suffix(e, ".tar.gz"@) { lemma_suffix_char(e, ".tar.gz"@, 1); lemma_suffix_char(e, ".tar.gz"@, 2); }
    if has_suffix(e, ".tgz"@) { lemma_suffix_char(e, ".tgz"@, 1); lemma_suffix_char(e, ".tgz"@, 2); }
    if has_suffix(e, ".tar.xz"@) { lemma_suffix_char(e, ".tar.xz"@, 1); lemma_suffix_char(e, ".tar.xz"@, 2); }
}

/// Any other name gets an uncompressed tar, `cf`; the archive comes first, then the file names, and the tool runs
/// in the directory of the first file.
pub proof fn lemma_compress_plain(files: Seq<Seq<char>>, archive: Seq<char>)
    requires
        !has_suffix(unicode_lowercase(archive), ".zip"@) && !has_suffix(unicode_lowercase(archive), ".tar.gz"@)
            && !has_suffix(unicode_lowercase(archive), ".tgz"@) && !has_suffix(unicode_lowercase(archive), ".tar.xz"@),
    ensures
        compress_command_for(files, archive) == (CommandView {
            program: "tar"@,
            args: seq!["cf"@, archive] + names_of(files),
            cwd: Some(parent_or_root(files[0])),
        }),
{
    reveal_strlit(".zip");
    reveal_strlit(".tar.gz");
    reveal_strlit(".tgz");
    reveal_strlit(".tar.xz");
    let e = unicode_lowercase(archive);
    if has_suffix(e, ".zip"@) { lemma_suffix_char(e, ".zip"@, 1); }
    if has_suffix(e, ".tar.gz"@) { lemma_suffix_char(e, ".tar.gz"@, 1); lemma_suffix_char(e, ".tar.gz"@, 2); }
    if has_suffix(e, ".tgz"@) { lemma_suffix_char(e, ".tgz"@, 1); lemma_suffix_char(e, ".tgz"@, 2); }
    if has_suffix(e, ".tar.xz"@) { lemma_suffix_char(e, ".tar.xz"@, 1); lemma_suffix_char(e, ".tar.xz"@, 2); }
}

} // verus!

verus! {

/// The files offered for extraction are exactly those a tool can unpack,
/// except the `.tbz2` short form, which is unpacked when asked but not
/// offered.
pub proof fn lemma_archive_iff_extractable(archive: Seq<char>, dest: Seq<char>)
    ensures
        archive_suffix(unicode_lowercase(archive))
            <==> (extract_command_for(archive, dest) is Ok && !has_suffix(unicode_lowercase(archive), ".tbz2"@)),
{
    reveal_strlit(".zip");
    reveal_strlit(".tar.gz");
    reveal_strlit(".tgz");
    reveal_strlit(".tar.xz");
    reveal_strlit(".txz");
    reveal_strlit(".tar.bz2");
    reveal_strlit(".tbz2");
    reveal_strlit(".tar");
    reveal_strlit(".7z");
    reveal_strlit(".rar");
    let e = unicode_lowercase(archive);
    if has_suffix(e, ".tbz2"@) {
        lemma_suffix_char(e, ".tbz2"@, 1);
        lemma_suffix_char(e, ".tbz2"@, 4);
        if has_suffix(e, ".zip"@) { lemma_suffix_char(e, ".zip"@, 1); }
        if has_suffix(e, ".tar.gz"@) { lemma_suffix_char(e, ".tar.gz"@, 1); }
        if has_suffix(e, ".tgz"@) { lemma_suffix_char(e, ".tgz"@, 1); }
        if has_suffix(e, ".tar.xz"@) { lemma_suffix_char(e, ".tar.xz"@, 1); }
        if has_suffix(e, ".txz"@) { lemma_suffix_char(e, ".txz"@, 1); }
        if has_suffix(e, ".tar.bz2"@) { lemma_suffix_char(e, ".tar.bz2"@, 4); }
        if has_suffix(e, ".tar"@) { lemma_suffix_char(e, ".tar"@, 1); }
        if has_suffix(e, ".7z"@) { lemma_suffix_char(e, ".7z"@, 1); }
        if has_suffix(e, ".rar"@) { lemma_suffix_char(e, ".rar"@, 1); }
    }
}

} // verus!
