//! Tags and color dots kept in a file's extended attributes: the tag list
//! is stored as its tags joined by commas, the color as its name.
use vstd::prelude::*;
use crate::lines::{views, split_char, nonempty_only, join_text, split_text, keep_nonempty, join};
use crate::text::{chars_of, string_of, owned, same_text, concat3};

verus! {

/// What `String::from_utf8_lossy` gives for some bytes: the text they
/// encode, with each invalid sequence replaced by U+FFFD.
pub uninterp spec fn utf8_lossy(bytes: Seq<u8>) -> Seq<char>;

/// The UTF-8 encoding of one character: one to four bytes by the size of
/// its scalar value.
pub open spec fn utf8_of_char(c: char) -> Seq<u8> {
    let n = c as int;
    if n < 0x80 {
        seq![n as u8]
    } else if n < 0x800 {
        seq![(0xC0 + n / 64) as u8, (0x80 + n % 64) as u8]
    } else if n < 0x10000 {
        seq![(0xE0 + n / 4096) as u8, (0x80 + (n / 64) % 64) as u8, (0x80 + n % 64) as u8]
    } else {
        seq![
            (0xF0 + n / 262144) as u8,
            (0x80 + (n / 4096) % 64) as u8,
            (0x80 + (n / 64) % 64) as u8,
            (0x80 + n % 64) as u8,
        ]
    }
}

/// The UTF-8 encoding of a text: the bytes `str::as_bytes` gives.
pub open spec fn utf8_of(s: Seq<char>) -> Seq<u8>
    decreases s.len(),
{
    if s.len() == 0 {
        Seq::empty()
    } else {
        utf8_of(s.drop_last()) + utf8_of_char(s.last())
    }
}

/// `String::from_utf8_lossy`: the text the bytes encode in UTF-8, invalid
/// sequences replaced by U+FFFD. The contract names the result, and states
/// that valid UTF-8 decodes to the text it encodes; how invalid sequences
/// are replaced is not stated.
#[verifier::external_body]
pub(crate) fn decode_lossy(bytes: &Vec<u8>) -> (res: String)
    ensures
        res@ == utf8_lossy(bytes@),
        forall|s: Seq<char>| #[trigger] utf8_of(s) == bytes@ ==> res@ == s,
{
    String::from_utf8_lossy(bytes.as_slice()).into_owned()
}

/// The color dots offered for a file: name and hex color.
pub open spec fn color_table() -> Seq<(Seq<char>, Seq<char>)> {
    seq![
        ("red"@, "#e74c3c"@),
        ("orange"@, "#e67e22"@),
        ("yellow"@, "#f1c40f"@),
        ("green"@, "#2ecc71"@),
        ("blue"@, "#3498db"@),
        ("purple"@, "#9b59b6"@),
        ("gray"@, "#95a5a6"@),
    ]
}

/// The color dots offered for a file, in the order they are shown.
pub fn colors() -> (res: Vec<(&'static str, &'static str)>)
    ensures
        res@.map_values(|p: (&str, &str)| (p.0@, p.1@)) == color_table(),
{
    let res = vec![
        ("red", "#e74c3c"),
        ("orange", "#e67e22"),
        ("yellow", "#f1c40f"),
        ("green", "#2ecc71"),
        ("blue", "#3498db"),
        ("purple", "#9b59b6"),
        ("gray", "#95a5a6"),
    ];
    assert(res@.map_values(|p: (&str, &str)| (p.0@, p.1@)) =~= color_table());
    res
}

/// The tags stored in an attribute value: its non-empty comma-separated
/// pieces.
pub open spec fn tags_in(text: Seq<char>) -> Seq<Seq<char>> {
    nonempty_only(split_char(text, ','))
}

/// The tags of a file from the bytes of its tag attribute (`None` when the
/// file has no such attribute or it could not be read).
pub fn tags_from_attr(data: Option<&Vec<u8>>) -> (res: Vec<String>)
    ensures
        views(res@) == match data {
            Some(d) => tags_in(utf8_lossy(d@)),
            None => Seq::empty(),
        },
        data matches Some(d) ==> forall|s: Seq<char>| #[trigger] utf8_of(s) == d@ ==> views(res@) == tags_in(s),
{
    match data {
        Some(d) => {
            let text = decode_lossy(d);
            keep_nonempty(split_text(text.as_str(), ','))
        }
        None => {
            let res: Vec<String> = Vec::new();
            assert(views(res@) =~= Seq::empty());
            res
        }
    }
}

/// The attribute value that stores a tag list: the tags joined by commas.
pub fn tags_attr_value(tags: &Vec<String>) -> (res: String)
    ensures
        res@ == join_text(views(tags@), seq![',']),
{
    let sep = ",";
    proof {
        reveal_strlit(",");
        assert(sep@ =~= seq![',']);
    }
    join(tags, sep)
}

/// The color of a file from the bytes of its color attribute: its text,
/// unless there is none or it is empty.
pub fn color_from_attr(data: Option<&Vec<u8>>) -> (res: Option<String>)
    ensures
        match data {
            Some(d) => if utf8_lossy(d@).len() > 0 {
                res matches Some(c) && c@ == utf8_lossy(d@)
            } else {
                res is None
            },
            None => res is None,
        },
{
    match data {
        Some(d) => {
            let text = decode_lossy(d);
            if text.as_str().is_empty() {
                None
            } else {
                Some(text)
            }
        }
        None => None,
    }
}

/// Whether `c` is white space as `char::is_whitespace` defines it (the
/// Unicode White_Space property).
pub open spec fn is_space(c: char) -> bool {
    ||| '\u{9}' <= c <= '\u{d}'
    ||| c == ' '
    ||| c == '\u{85}'
    ||| c == '\u{a0}'
    ||| c == '\u{1680}'
    ||| '\u{2000}' <= c <= '\u{200a}'
    ||| c == '\u{2028}'
    ||| c == '\u{2029}'
    ||| c == '\u{202f}'
    ||| c == '\u{205f}'
    ||| c == '\u{3000}'
}

fn space(c: char) -> (res: bool)
    ensures
        res == is_space(c),
{
    ('\u{9}' <= c && c <= '\u{d}') || c == ' ' || c == '\u{85}' || c == '\u{a0}' || c == '\u{1680}'
        || ('\u{2000}' <= c && c <= '\u{200a}') || c == '\u{2028}' || c == '\u{2029}'
        || c == '\u{202f}' || c == '\u{205f}' || c == '\u{3000}'
}

/// `s` without leading and trailing white space, as `str::trim` gives it.
pub open spec fn trimmed(s: Seq<char>) -> Seq<char>
    decreases s.len(),
{
    if s.len() == 0 {
        s
    } else if is_space(s[0]) {
        trimmed(s.drop_first())
    } else if is_space(s.last()) {
        trimmed(s.drop_last())
    } else {
        s
    }
}

/// `s` without leading and trailing white space.
pub fn trim(s: &str) -> (res: String)
    ensures
        res@ == trimmed(s@),
{
    let cs = chars_of(s);
    let n = cs.len();
    let mut i: usize = 0;
    assert(cs@.subrange(0, n as int) =~= cs@);
    while i < n && space(cs[i])
        invariant
            cs@ == s@,
            n == cs.len(),
            i <= n,
            trimmed(s@) == trimmed(cs@.subrange(i as int, n as int)),
        decreases n - i,
    {
        assert(cs@.subrange(i as int, n as int).drop_first() =~= cs@.subrange(i + 1, n as int));
        i += 1;
    }
    let mut j: usize = n;
    while j > i && space(cs[j - 1])
        invariant
            cs@ == s@,
            n == cs.len(),
            i <= j <= n,
            i < n ==> !is_space(cs@[i as int]),
            trimmed(s@) == trimmed(cs@.subrange(i as int, j as int)),
        decreases j - i,
    {
        let ghost sub = cs@.subrange(i as int, j as int);
        assert(sub[0] == cs@[i as int]);
        assert(sub.last() == cs@[j - 1]);
        assert(sub.drop_last() =~= cs@.subrange(i as int, j - 1));
        j -= 1;
    }
    let mut res = String::new();
    let mut k: usize = i;
    while k < j
        invariant
            cs@ == s@,
            n == cs.len(),
            i <= k <= j <= n,
            res@ == cs@.subrange(i as int, k as int),
        decreases j - k,
    {
        res.push(cs[k]);
        assert(cs@.subrange(i as int, k + 1) =~= cs@.subrange(i as int, k as int).push(cs@[k as int]));
        k += 1;
    }
    proof {
        let sub = cs@.subrange(i as int, j as int);
        if sub.len() > 0 {
            assert(sub[0] == cs@[i as int]);
            assert(sub.last() == cs@[j - 1]);
        }
    }
    res
}

/// Whether `tags` holds `tag`.
pub fn has_tag(tags: &Vec<String>, tag: &str) -> (res: bool)
    ensures
        res == views(tags@).contains(tag@),
{
    let mut i: usize = 0;
    while i < tags.len()
        invariant
            i <= tags.len(),
            forall|j: int| 0 <= j < i ==> views(tags@)[j] != tag@,
        decreases tags.len() - i,
    {
        if same_text(tags[i].as_str(), tag) {
            assert(views(tags@)[i as int] == tag@);
            return true;
        }
        i += 1;
    }
    false
}

/// What adding the tag typed as `entered` does: the trimmed text is
/// appended when it is non-empty and not yet a tag.
pub open spec fn tags_after_add(tags: Seq<Seq<char>>, entered: Seq<char>) -> Option<Seq<Seq<char>>> {
    let tag = trimmed(entered);
    if tag.len() == 0 || tags.contains(tag) {
        None
    } else {
        Some(tags.push(tag))
    }
}

/// The new tag list after adding the tag typed as `entered`, or `None` when
/// nothing changes (the text is blank or the tag is already there).
pub fn add_tag(tags: &Vec<String>, entered: &str) -> (res: Option<Vec<String>>)
    ensures
        match res {
            Some(v) => tags_after_add(views(tags@), entered@) == Some(views(v@)),
            None => tags_after_add(views(tags@), entered@) is None,
        },
{
    let tag = trim(entered);
    if tag.as_str().is_empty() || has_tag(tags, tag.as_str()) {
        return None;
    }
    let mut res: Vec<String> = Vec::new();
    let mut i: usize = 0;
    while i < tags.len()
        invariant
            i <= tags.len(),
            views(res@) == views(tags@).take(i as int),
        decreases tags.len() - i,
    {
        let ghost prev = views(res@);
        res.push(tags[i].clone());
        assert(views(res@) =~= views(tags@).take(i + 1)) by {
            assert(views(res@) =~= prev.push(views(tags@)[i as int]));
        }
        i += 1;
    }
    assert(views(tags@).take(tags.len() as int) =~= views(tags@));
    let ghost prev = views(res@);
    res.push(tag);
    assert(views(res@) =~= prev.push(trimmed(entered@)));
    Some(res)
}

/// The text shown for a file's tags: the tags separated by ", ", or
/// "No tags".
pub fn tags_label(tags: &Vec<String>) -> (res: String)
    ensures
        tags@.len() == 0 ==> res@ == "No tags"@,
        tags@.len() > 0 ==> res@ == join_text(views(tags@), ", "@),
{
    if tags.len() == 0 {
        owned("No tags")
    } else {
        join(tags, ", ")
    }
}

/// The style rule that paints the dot of color `name` with `hex`.
pub fn color_css(name: &str, hex: &str) -> (res: String)
    ensures
        res@ == ".color-dot-"@ + name@ + " { background-color: "@ + hex@
            + "; border-radius: 50%; min-width: 24px; min-height: 24px; }"@,
{
    let mut res = concat3(".color-dot-", name, " { background-color: ");
    res.append(hex);
    res.append("; border-radius: 50%; min-width: 24px; min-height: 24px; }");
    res
}

/// The style class of the dot of color `name`.
pub fn color_class(name: &str) -> (res: String)
    ensures
        res@ == "color-dot-"@ + name@,
{
    let mut res = owned("color-dot-");
    res.append(name);
    res
}

/// Tags written with `tags_attr_value` (as UTF-8) read back with
/// `tags_from_attr` as the same list with its empty tags dropped, when none
/// holds a comma; a list without empty tags reads back unchanged.
pub proof fn lemma_tags_roundtrip(tags: Seq<Seq<char>>)
    requires
        crate::lines::free_of(tags, ','),
    ensures
        tags_in(join_text(tags, seq![','])) == nonempty_only(tags),
        crate::lines::all_nonempty(tags) ==> tags_in(join_text(tags, seq![','])) == tags,
{
    crate::lines::lemma_split_roundtrip(tags, ',');
}

/// A tag once added is among the tags, and adding it again changes nothing.
pub proof fn lemma_add_tag_idempotent(tags: Seq<Seq<char>>, entered: Seq<char>)
    ensures
        tags_after_add(tags, entered) matches Some(t) ==> t.contains(trimmed(entered))
            && tags_after_add(t, entered) is None,
{
    if let Some(t) = tags_after_add(tags, entered) {
        assert(t[t.len() - 1] == trimmed(entered));
    }
}

} // verus!

verus! {

/// The color dots offered, in order, with their colors: red, orange,
/// yellow, green, blue, purple and gray.
pub proof fn lemma_color_dots()
    ensures
        color_table().len() == 7,
        color_table()[0] == ("red"@, "#e74c3c"@),
        color_table()[1] == ("orange"@, "#e67e22"@),
        color_table()[2] == ("yellow"@, "#f1c40f"@),
        color_table()[3] == ("green"@, "#2ecc71"@),
        color_table()[4] == ("blue"@, "#3498db"@),
        color_table()[5] == ("purple"@, "#9b59b6"@),
        color_table()[6] == ("gray"@, "#95a5a6"@),
{
}

} // verus!
