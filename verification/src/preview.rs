//! The preview pane: which files are shown as images, which as text, and
//! the summary shown for the others.
use vstd::prelude::*;
use crate::paths::{extension_of, path_extension};
use crate::text::{unicode_lowercase, to_lowercase, contains, contains_text, starts_with, has_prefix, chars_of, owned, concat3};
use crate::format::size_text;

verus! {

/// Content types shown as text although they are not "text/".
pub open spec fn text_like_types() -> Seq<Seq<char>> {
    seq![
        "application/json"@, "application/xml"@, "application/javascript"@,
        "application/x-shellscript"@, "application/toml"@, "application/yaml"@,
        "application/x-perl"@, "application/x-ruby"@,
    ]
}

/// File extensions shown as text, lowercased.
pub open spec fn text_extensions() -> Seq<Seq<char>> {
    seq![
        "rs"@, "py"@, "js"@, "ts"@, "go"@, "c"@, "cpp"@, "h"@,
        "java"@, "rb"@, "sh"@, "bash"@, "zsh"@, "fish"@, "md"@, "txt"@, "log"@,
        "toml"@, "yaml"@, "yml"@, "json"@, "xml"@, "csv"@, "ini"@, "cfg"@,
        "conf"@, "html"@, "css"@, "lua"@, "sql"@, "vim"@, "dockerfile"@, "makefile"@,
    ]
}

/// The texts of a list of string slices.
pub open spec fn slice_views(v: Seq<&str>) -> Seq<Seq<char>> {
    v.map_values(|x: &str| x@)
}

/// The lowercased extension of `path`, empty when it has none.
pub open spec fn lower_extension(path: Seq<char>) -> Seq<char> {
    unicode_lowercase(match extension_of(path) {
        Some(e) => e,
        None => Seq::empty(),
    })
}

/// Whether a file whose content type is not "text/" is still shown as text:
/// its type names a textual format, or its extension is a known text one.
pub open spec fn text_file(content_type: Seq<char>, path: Seq<char>) -> bool {
    (exists|i: int| 0 <= i < text_like_types().len() && contains_text(content_type, #[trigger] text_like_types()[i]))
        || text_extensions().contains(lower_extension(path))
}

/// Whether `s` is one of `list`.
fn member(s: &str, list: &Vec<&str>) -> (res: bool)
    ensures
        res == slice_views(list@).contains(s@),
{
    let mut i: usize = 0;
    while i < list.len()
        invariant
            i <= list.len(),
            forall|j: int| 0 <= j < i ==> slice_views(list@)[j] != s@,
        decreases list.len() - i,
    {
        if crate::text::same_text(list[i], s) {
            assert(slice_views(list@)[i as int] == s@);
            return true;
        }
        i += 1;
    }
    false
}

/// Whether some text of `list` occurs in `s`.
fn mentions_any(s: &str, list: &Vec<&str>) -> (res: bool)
    ensures
        res == exists|i: int| 0 <= i < list@.len() && contains_text(s@, #[trigger] slice_views(list@)[i]),
{
    let mut i: usize = 0;
    while i < list.len()
        invariant
            i <= list.len(),
            forall|j: int| 0 <= j < i ==> !contains_text(s@, #[trigger] slice_views(list@)[j]),
        decreases list.len() - i,
    {
        if contains(s, list[i]) {
            assert(contains_text(s@, slice_views(list@)[i as int]));
            return true;
        }
        i += 1;
    }
    false
}

/// Whether a file with this content type and path is previewed as text
/// even though its type does not start with "text/".
pub fn is_text_file(content_type: &str, path: &str) -> (res: bool)
    ensures
        res == text_file(content_type@, path@),
{
    let types = vec![
        "application/json", "application/xml", "application/javascript",
        "application/x-shellscript", "application/toml", "application/yaml",
        "application/x-perl", "application/x-ruby",
    ];
    assert(slice_views(types@) =~= text_like_types());
    if mentions_any(content_type, &types) {
        return true;
    }
    let ext = match path_extension(path) {
        Some(e) => e,
        None => String::new(),
    };
    let lower = to_lowercase(ext.as_str());
    let exts = vec![
        "rs", "py", "js", "ts", "go", "c", "cpp", "h",
        "java", "rb", "sh", "bash", "zsh", "fish", "md", "txt", "log",
        "toml", "yaml", "yml", "json", "xml", "csv", "ini", "cfg",
        "conf", "html", "css", "lua", "sql", "vim", "dockerfile", "makefile",
    ];
    assert(slice_views(exts@) =~= text_extensions());
    member(lower.as_str(), &exts)
}

/// How the preview pane shows a file.
#[derive(Clone, Copy, Debug, PartialEq, Eq, Structural)]
pub enum PreviewKind {
    Image,
    Text,
    Info,
}

/// How a file is previewed: images by their content type, text by its
/// content type or the text rules, everything else as a summary.
pub open spec fn preview_for(content_type: Seq<char>, path: Seq<char>) -> PreviewKind {
    if has_prefix(content_type, "image/"@) {
        PreviewKind::Image
    } else if has_prefix(content_type, "text/"@) || text_file(content_type, path) {
        PreviewKind::Text
    } else {
        PreviewKind::Info
    }
}

/// How the file at `path`, of the given content type, is previewed.
pub fn preview_kind(content_type: &str, path: &str) -> (res: PreviewKind)
    ensures
        res == preview_for(content_type@, path@),
{
    if starts_with(content_type, "image/") {
        PreviewKind::Image
    } else if starts_with(content_type, "text/") || is_text_file(content_type, path) {
        PreviewKind::Text
    } else {
        PreviewKind::Info
    }
}

/// The most characters of a text file the preview shows.
pub const PREVIEW_CHARS: usize = 5000;

/// The start of a file's text that the preview shows: its first
/// `PREVIEW_CHARS` characters.
pub fn preview_text(contents: &str) -> (res: String)
    ensures
        res@ == if contents@.len() <= PREVIEW_CHARS { contents@ } else { contents@.take(PREVIEW_CHARS as int) },
{
    let cs = chars_of(contents);
    let n = if cs.len() < PREVIEW_CHARS { cs.len() } else { PREVIEW_CHARS };
    let mut res = String::new();
    let mut i: usize = 0;
    while i < n
        invariant
            cs@ == contents@,
            n <= cs.len(),
            n == (if cs.len() < PREVIEW_CHARS { cs.len() } else { PREVIEW_CHARS }),
            i <= n,
            res@ == cs@.take(i as int),
        decreases n - i,
    {
        res.push(cs[i]);
        assert(cs@.take(i + 1) =~= cs@.take(i as int).push(cs@[i as int]));
        i += 1;
    }
    assert(cs@.take(cs.len() as int) =~= cs@);
    res
}

/// The summary shown for a file that is not previewed: its type's
/// description, then its size and its modification time when known.
pub open spec fn info_summary(description: Seq<char>, size: Option<u64>, modified: Option<Seq<char>>) -> Seq<char> {
    "Type: "@ + description + "\n"@
        + match size {
            Some(n) => "Size: "@ + size_text(n as nat) + "\n"@,
            None => Seq::empty(),
        }
        + match modified {
            Some(m) => "Modified: "@ + m + "\n"@,
            None => Seq::empty(),
        }
}

/// The summary shown for a file that is not previewed, given its type's
/// description, its size and its modification time already written out.
pub fn info_text(description: &str, size: Option<u64>, modified: Option<&str>) -> (res: String)
    ensures
        res@ == info_summary(description@, size, match modified { Some(m) => Some(m@), None => None }),
{
    let mut res = concat3("Type: ", description, "\n");
    match size {
        Some(n) => {
            res.append("Size: ");
            let s = crate::format::format_size(n);
            res.append(s.as_str());
            res.append("\n");
        }
        None => {}
    }
    match modified {
        Some(m) => {
            res.append("Modified: ");
            res.append(m);
            res.append("\n");
        }
        None => {}
    }
    res
}

} // verus!

verus! {

/// Images are previewed as images; "text/" types, the textual application
/// types (JSON, XML, JavaScript, shell, TOML, YAML, Perl, Ruby) and files
/// with a known source or text extension are previewed as text.
pub proof fn lemma_preview_rules(content_type: Seq<char>, path: Seq<char>)
    ensures
        has_prefix(content_type, "image/"@) ==> preview_for(content_type, path) == PreviewKind::Image,
        !has_prefix(content_type, "image/"@) && has_prefix(content_type, "text/"@) ==> preview_for(content_type, path) == PreviewKind::Text,
        !has_prefix(content_type, "image/"@) && lower_extension(path) == "rs"@ ==> preview_for(content_type, path) == PreviewKind::Text,
        !has_prefix(content_type, "image/"@) && lower_extension(path) == "py"@ ==> preview_for(content_type, path) == PreviewKind::Text,
        !has_prefix(content_type, "image/"@) && lower_extension(path) == "js"@ ==> preview_for(content_type, path) == PreviewKind::Text,
        !has_prefix(content_type, "image/"@) && lower_extension(path) == "ts"@ ==> preview_for(content_type, path) == PreviewKind::Text,
        !has_prefix(content_type, "image/"@) && lower_extension(path) == "go"@ ==> preview_for(content_type, path) == PreviewKind::Text,
        !has_prefix(content_type, "image/"@) && lower_extension(path) == "c"@ ==> preview_for(content_type, path) == PreviewKind::Text,
        !has_prefix(content_type, "image/"@) && lower_extension(path) == "cpp"@ ==> preview_for(content_type, path) == PreviewKind::Text,
        !has_prefix(content_type, "image/"@) && lower_extension(path) == "h"@ ==> preview_for(content_type, path) == PreviewKind::Text,
        !has_prefix(content_type, "image/"@) && lower_extension(path) == "java"@ ==> preview_for(content_type, path) == PreviewKind::Text,
        !has_prefix(content_type, "image/"@) && lower_extension(path) == "rb"@ ==> preview_for(content_type, path) == PreviewKind::Text,
        !has_prefix(content_type, "image/"@) && lower_extension(path) == "sh"@ ==> preview_for(content_type, path) == PreviewKind::Text,
        !has_prefix(content_type, "image/"@) && lower_extension(path) == "bash"@ ==> preview_for(content_type, path) == PreviewKind::Text,
        !has_prefix(content_type, "image/"@) && lower_extension(path) == "zsh"@ ==> preview_for(content_type, path) == PreviewKind::Text,
        !has_prefix(content_type, "image/"@) && lower_extension(path) == "fish"@ ==> preview_for(content_type, path) == PreviewKind::Text,
        !has_prefix(content_type, "image/"@) && lower_extension(path) == "md"@ ==> preview_for(content_type, path) == PreviewKind::Text,
        !has_prefix(content_type, "image/"@) && lower_extension(path) == "txt"@ ==> preview_for(content_type, path) == PreviewKind::Text,
        !has_prefix(content_type, "image/"@) && lower_extension(path) == "log"@ ==> preview_for(content_type, path) == PreviewKind::Text,
        !has_prefix(content_type, "image/"@) && lower_extension(path) == "toml"@ ==> preview_for(content_type, path) == PreviewKind::Text,
        !has_prefix(content_type, "image/"@) && lower_extension(path) == "yaml"@ ==> preview_for(content_type, path) == PreviewKind::Text,
        !has_prefix(content_type, "image/"@) && lower_extension(path) == "yml"@ ==> preview_for(content_type, path) == PreviewKind::Text,
        !has_prefix(content_type, "image/"@) && lower_extension(path) == "json"@ ==> preview_for(content_type, path) == PreviewKind::Text,
        !has_prefix(content_type, "image/"@) && lower_extension(path) == "xml"@ ==> preview_for(content_type, path) == PreviewKind::Text,
        !has_prefix(content_type, "image/"@) && lower_extension(path) == "csv"@ ==> preview_for(content_type, path) == PreviewKind::Text,
        !has_prefix(content_type, "image/"@) && lower_extension(path) == "ini"@ ==> preview_for(content_type, path) == PreviewKind::Text,
        !has_prefix(content_type, "image/"@) && lower_extension(path) == "cfg"@ ==> preview_for(content_type, path) == PreviewKind::Text,
        !has_prefix(content_type, "image/"@) && lower_extension(path) == "conf"@ ==> preview_for(content_type, path) == PreviewKind::Text,
        !has_prefix(content_type, "image/"@) && lower_extension(path) == "html"@ ==> preview_for(content_type, path) == PreviewKind::Text,
        !has_prefix(content_type, "image/"@) && lower_extension(path) == "css"@ ==> preview_for(content_type, path) == PreviewKind::Text,
        !has_prefix(content_type, "image/"@) && lower_extension(path) == "lua"@ ==> preview_for(content_type, path) == PreviewKind::Text,
        !has_prefix(content_type, "image/"@) && lower_extension(path) == "sql"@ ==> preview_for(content_type, path) == PreviewKind::Text,
        !has_prefix(content_type, "image/"@) && lower_extension(path) == "vim"@ ==> preview_for(content_type, path) == PreviewKind::Text,
        !has_prefix(content_type, "image/"@) && lower_extension(path) == "dockerfile"@ ==> preview_for(content_type, path) == PreviewKind::Text,
        !has_prefix(content_type, "image/"@) && lower_extension(path) == "makefile"@ ==> preview_for(content_type, path) == PreviewKind::Text,
        !has_prefix(content_type, "image/"@) && contains_text(content_type, "application/json"@) ==> preview_for(content_type, path) == PreviewKind::Text,
        !has_prefix(content_type, "image/"@) && contains_text(content_type, "application/xml"@) ==> preview_for(content_type, path) == PreviewKind::Text,
        !has_prefix(content_type, "image/"@) && contains_text(content_type, "application/javascript"@) ==> preview_for(content_type, path) == PreviewKind::Text,
        !has_prefix(content_type, "image/"@) && contains_text(content_type, "application/x-shellscript"@) ==> preview_for(content_type, path) == PreviewKind::Text,
        !has_prefix(content_type, "image/"@) && contains_text(content_type, "application/toml"@) ==> preview_for(content_type, path) == PreviewKind::Text,
        !has_prefix(content_type, "image/"@) && contains_text(content_type, "application/yaml"@) ==> preview_for(content_type, path) == PreviewKind::Text,
        !has_prefix(content_type, "image/"@) && contains_text(content_type, "application/x-perl"@) ==> preview_for(content_type, path) == PreviewKind::Text,
        !has_prefix(content_type, "image/"@) && contains_text(content_type, "application/x-ruby"@) ==> preview_for(content_type, path) == PreviewKind::Text,
{
    assert(text_extensions()[0] == "rs"@);
    assert(text_extensions()[1] == "py"@);
    assert(text_extensions()[2] == "js"@);
    assert(text_extensions()[3] == "ts"@);
    assert(text_extensions()[4] == "go"@);
    assert(text_extensions()[5] == "c"@);
    assert(text_extensions()[6] == "cpp"@);
    assert(text_extensions()[7] == "h"@);
    assert(text_extensions()[8] == "java"@);
    assert(text_extensions()[9] == "rb"@);
    assert(text_extensions()[10] == "sh"@);
    assert(text_extensions()[11] == "bash"@);
    assert(text_extensions()[12] == "zsh"@);
    assert(text_extensions()[13] == "fish"@);
    assert(text_extensions()[14] == "md"@);
    assert(text_extensions()[15] == "txt"@);
    assert(text_extensions()[16] == "log"@);
    assert(text_extensions()[17] == "toml"@);
    assert(text_extensions()[18] == "yaml"@);
    assert(text_extensions()[19] == "yml"@);
    assert(text_extensions()[20] == "json"@);
    assert(text_extensions()[21] == "xml"@);
    assert(text_extensions()[22] == "csv"@);
    assert(text_extensions()[23] == "ini"@);
    assert(text_extensions()[24] == "cfg"@);
    assert(text_extensions()[25] == "conf"@);
    assert(text_extensions()[26] == "html"@);
    assert(text_extensions()[27] == "css"@);
    assert(text_extensions()[28] == "lua"@);
    assert(text_extensions()[29] == "sql"@);
    assert(text_extensions()[30] == "vim"@);
    assert(text_extensions()[31] == "dockerfile"@);
    assert(text_extensions()[32] == "makefile"@);
    assert(text_like_types()[0] == "application/json"@);
    assert(text_like_types()[1] == "application/xml"@);
    assert(text_like_types()[2] == "application/javascript"@);
    assert(text_like_types()[3] == "application/x-shellscript"@);
    assert(text_like_types()[4] == "application/toml"@);
    assert(text_like_types()[5] == "application/yaml"@);
    assert(text_like_types()[6] == "application/x-perl"@);
    assert(text_like_types()[7] == "application/x-ruby"@);
}

} // verus!
