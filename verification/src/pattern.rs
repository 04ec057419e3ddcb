//! Regular expressions, through the regex crate.
use vstd::prelude::*;

verus! {

#[verifier::external_type_specification]
#[verifier::external_body]
pub struct ExRegex(regex::Regex);

/// Whether `Regex::new` accepts a pattern.
pub uninterp spec fn regex_compiles(pattern: Seq<char>) -> bool;

/// What `Regex::replace_all` gives for a pattern, a text and a replacement
/// (with `$name` expansion).
pub uninterp spec fn regex_replaced(pattern: Seq<char>, text: Seq<char>, replacement: Seq<char>) -> Seq<char>;

/// What `Regex::is_match` answers for a pattern and a text.
pub uninterp spec fn regex_finds(pattern: Seq<char>, text: Seq<char>) -> bool;

/// A compiled regular expression together with the pattern it was compiled
/// from.
pub struct Pattern {
    regex: regex::Regex,
    source: String,
}

impl View for Pattern {
    type V = Seq<char>;

    /// The pattern text.
    closed spec fn view(&self) -> Seq<char> {
        self.source@
    }
}

/// `Regex::new`: the compiled pattern, or `None` when the regex crate
/// rejects it. Whether it succeeds is named; the returned value carries the
/// pattern text it was compiled from.
#[verifier::external_body]
pub(crate) fn compile(pattern: &str) -> (res: Option<Pattern>)
    ensures
        res is Some <==> regex_compiles(pattern@),
        res matches Some(p) ==> p@ == pattern@,
{
    match regex::Regex::new(pattern) {
        Ok(regex) => Some(Pattern { regex, source: pattern.to_string() }),
        Err(_) => None,
    }
}

/// `Regex::replace_all`: every match in `text` replaced by `replacement`,
/// with capture references expanded. Only the result is named.
#[verifier::external_body]
pub(crate) fn replace_all(p: &Pattern, text: &str, replacement: &str) -> (res: String)
    ensures
        res@ == regex_replaced(p@, text@, replacement@),
{
    p.regex.replace_all(text, replacement).into_owned()
}

/// `Regex::is_match`: whether the pattern matches somewhere in `text`. Only
/// the result is named.
#[verifier::external_body]
pub(crate) fn is_match(p: &Pattern, text: &str) -> (res: bool)
    ensures
        res == regex_finds(p@, text@),
{
    p.regex.is_match(text)
}

/// Whether a character has a meaning in a regular expression (regex-syntax's
/// `is_meta_character`).
pub open spec fn is_meta(c: char) -> bool {
    c == '\\' || c == '.' || c == '+' || c == '*' || c == '?' || c == '(' || c == ')'
        || c == '|' || c == '[' || c == ']' || c == '{' || c == '}' || c == '^' || c == '$'
        || c == '#' || c == '&' || c == '-' || c == '~'
}

/// `text` with a backslash before every meta character.
pub open spec fn escaped(text: Seq<char>) -> Seq<char>
    decreases text.len(),
{
    if text.len() == 0 {
        text
    } else {
        let rest = escaped(text.drop_last());
        if is_meta(text.last()) {
            rest.push('\\').push(text.last())
        } else {
            rest.push(text.last())
        }
    }
}

/// `regex::escape`: `text` with every meta character preceded by a
/// backslash, so that the pattern matches `text` literally.
#[verifier::external_body]
pub(crate) fn escape(text: &str) -> (res: String)
    ensures
        res@ == escaped(text@),
{
    regex::escape(text)
}

} // verus!
