//! File search by name (and optionally by content) under a directory.
use vstd::prelude::*;
use vstd::string::StringSliceAdditionalSpecFns;
use crate::text::{replace_text, owned, concat2, replace};
use crate::paths::{name_or_empty, file_name_or_empty, parent_of, path_parent};
use crate::text::{decimal, decimal_text};
use crate::pattern::{Pattern, escaped, is_meta, regex_compiles, regex_finds, compile, escape, is_match};

verus! {

/// At most this many paths are reported.
pub const MAX_RESULTS: usize = 500;

/// How deep below the starting directory a search looks: entries at most
/// this many levels down are offered (the directory itself is level 0).
pub const MAX_SEARCH_DEPTH: usize = 10;

/// The regular expression searched for: the query itself in regex mode,
/// otherwise the query matched literally except that `*` stands for any run
/// of characters and `?` for one character; "(?i)" in front unless the
/// search is case sensitive.
pub open spec fn search_pattern_text(query: Seq<char>, is_regex: bool, case_sensitive: bool) -> Seq<char> {
    let body = if is_regex {
        query
    } else {
        replace_text(replace_text(escaped(query), "\\*"@, ".*"@), "\\?"@, "."@)
    };
    if case_sensitive { body } else { "(?i)"@ + body }
}

/// The regular expression a search compiles.
pub fn search_pattern(query: &str, is_regex: bool, case_sensitive: bool) -> (res: String)
    ensures
        res@ == search_pattern_text(query@, is_regex, case_sensitive),
{
    let body = if is_regex {
        owned(query)
    } else {
        let e = escape(query);
        let star = replace(e.as_str(), "\\*", ".*");
        replace(star.as_str(), "\\?", ".")
    };
    if case_sensitive { body } else { concat2("(?i)", body.as_str()) }
}

/// What the search needs next for an entry.
#[derive(Clone, Copy, Debug, PartialEq, Eq, Structural)]
pub enum SearchNext {
    /// The name matched and the path was recorded.
    Recorded,
    /// The name did not match; the file's text should be offered.
    NeedContents,
    /// The entry is not a match.
    Skipped,
}

/// A search in progress: the compiled pattern, whether file contents are
/// searched, and the paths found so far.
pub struct FileSearch {
    pattern: Pattern,
    search_contents: bool,
    found: Vec<String>,
}

impl View for FileSearch {
    type V = (Seq<char>, bool, Seq<Seq<char>>);

    /// The pattern, whether contents are searched, the paths found.
    closed spec fn view(&self) -> (Seq<char>, bool, Seq<Seq<char>>) {
        (self.pattern@, self.search_contents, self.found@.map_values(|p: String| p@))
    }
}

impl FileSearch {
    /// No more paths are held than are reported.
    #[verifier::type_invariant]
    spec fn holds_at_most_max(&self) -> bool {
        self.found.len() <= MAX_RESULTS
    }

    /// Adds a path to those found; there is room for it.
    fn record(&mut self, path: &str)
        requires
            old(self)@.2.len() < MAX_RESULTS,
        ensures
            final(self)@.0 == old(self)@.0,
            final(self)@.1 == old(self)@.1,
            final(self)@.2 == old(self)@.2.push(path@),
    {
        let ghost before = self@.2;
        let mut found: Vec<String> = Vec::new();
        std::mem::swap(&mut found, &mut self.found);
        found.push(owned(path));
        std::mem::swap(&mut found, &mut self.found);
        assert(self@.2 =~= before.push(path@));
    }

    /// A search for `query`, or `None` when its pattern does not compile.
    pub fn new(query: &str, is_regex: bool, case_sensitive: bool, search_contents: bool) -> (res: Option<FileSearch>)
        ensures
            res is Some <==> regex_compiles(search_pattern_text(query@, is_regex, case_sensitive)),
            res matches Some(s) ==> s@ == (search_pattern_text(query@, is_regex, case_sensitive), search_contents, Seq::<Seq<char>>::empty()),
    {
        let text = search_pattern(query, is_regex, case_sensitive);
        match compile(text.as_str()) {
            Some(pattern) => {
                let s = FileSearch { pattern, search_contents, found: Vec::new() };
                assert(s@.2 =~= Seq::<Seq<char>>::empty());
                Some(s)
            },
            None => None,
        }
    }

    /// Whether the search has found as many paths as it reports; the walk
    /// stops then.
    pub fn is_full(&self) -> (res: bool)
        ensures
            res == (self@.2.len() >= MAX_RESULTS),
            self@.2.len() <= MAX_RESULTS,
    {
        proof {
            use_type_invariant(self);
        }
        self.found.len() >= MAX_RESULTS
    }

    /// Offers an entry met during the walk. Once 500 paths are held nothing
    /// more is taken. Otherwise its path is recorded when its file name
    /// matches; failing that, for a regular file when contents are searched,
    /// its text is asked for.
    pub fn offer_entry(&mut self, path: &str, is_file: bool) -> (res: SearchNext)
        ensures
            final(self)@.0 == old(self)@.0,
            final(self)@.1 == old(self)@.1,
            final(self)@.2.len() <= MAX_RESULTS,
            old(self)@.2.len() >= MAX_RESULTS ==> res == SearchNext::Skipped && final(self)@.2 == old(self)@.2,
            old(self)@.2.len() < MAX_RESULTS && regex_finds(old(self)@.0, name_or_empty(path@)) ==> res == SearchNext::Recorded
                && final(self)@.2 == old(self)@.2.push(path@),
            old(self)@.2.len() < MAX_RESULTS && !regex_finds(old(self)@.0, name_or_empty(path@)) ==> final(self)@.2 == old(self)@.2
                && res == if old(self)@.1 && is_file { SearchNext::NeedContents } else { SearchNext::Skipped },
    {
        proof {
            use_type_invariant(&*self);
        }
        if self.found.len() >= MAX_RESULTS {
            return SearchNext::Skipped;
        }
        let name = file_name_or_empty(path);
        if is_match(&self.pattern, name.as_str()) {
            self.record(path);
            SearchNext::Recorded
        } else if self.search_contents && is_file {
            SearchNext::NeedContents
        } else {
            SearchNext::Skipped
        }
    }

    /// Offers the text of a file whose name did not match: its path is
    /// recorded when the text matches and fewer than 500 paths are held.
    pub fn offer_contents(&mut self, path: &str, contents: &str)
        ensures
            final(self)@.0 == old(self)@.0,
            final(self)@.1 == old(self)@.1,
            final(self)@.2.len() <= MAX_RESULTS,
            final(self)@.2 == if old(self)@.2.len() < MAX_RESULTS && regex_finds(old(self)@.0, contents@) {
                old(self)@.2.push(path@)
            } else {
                old(self)@.2
            },
    {
        proof {
            use_type_invariant(&*self);
        }
        if self.found.len() >= MAX_RESULTS {
            return;
        }
        if is_match(&self.pattern, contents) {
            self.record(path);
        }
    }

    /// The paths found, in the order they were recorded.
    pub fn into_results(self) -> (res: Vec<String>)
        ensures
            res@.map_values(|p: String| p@) == self@.2,
            res.len() <= MAX_RESULTS,
    {
        proof {
            use_type_invariant(&self);
        }
        self.found
    }
}

/// Whether a query is long enough to search for: at least two bytes.
pub fn query_ready(query: &str) -> (res: bool)
    ensures
        res == (query.spec_bytes().len() >= 2),
{
    let bytes = query.as_bytes();
    bytes.len() >= 2
}

/// The status shown after a search found `count` paths.
pub fn results_text(count: usize) -> (res: String)
    ensures
        res@ == decimal(count as nat) + " result(s) found"@,
{
    let n = decimal_text(count as u64);
    concat2(n.as_str(), " result(s) found")
}

/// Where opening a search result leads: the directory itself, or the
/// directory holding a file (nowhere for a file without a parent).
pub fn result_location(path: &str, is_dir: bool) -> (res: Option<String>)
    ensures
        is_dir ==> (res matches Some(p) && p@ == path@),
        !is_dir ==> match parent_of(path@) {
            Some(q) => (res matches Some(p) && p@ == q),
            None => res is None,
        },
{
    if is_dir {
        Some(owned(path))
    } else {
        path_parent(path)
    }
}

} // verus!

verus! {

/// Ignoring case only puts the flag "(?i)" in front: in either mode the
/// case-insensitive pattern is "(?i)" followed by exactly the
/// case-sensitive one. In regex mode the case-sensitive pattern is the
/// query itself, so a case-insensitive regex search compiles "(?i)" and the
/// query.
pub proof fn lemma_search_case_flag(query: Seq<char>, is_regex: bool)
    ensures
        search_pattern_text(query, is_regex, false)
            == seq!['(', '?', 'i', ')'] + search_pattern_text(query, is_regex, true),
        search_pattern_text(query, true, true) == query,
        search_pattern_text(query, true, false) == seq!['(', '?', 'i', ')'] + query,
{
    reveal_strlit("(?i)");
}

} // verus!

verus! {

/// What one character of a wildcard query becomes in its pattern: `*`
/// any run of characters, `?` any one character, a regex meta character
/// that character matched literally (behind a backslash), any other
/// character itself.
pub open spec fn wildcard_piece(c: char) -> Seq<char> {
    if c == '*' {
        seq!['.', '*']
    } else if c == '?' {
        seq!['.']
    } else if is_meta(c) {
        seq!['\\', c]
    } else {
        seq![c]
    }
}

/// A wildcard query as a regular expression, character by character.
pub open spec fn wildcard_regex(q: Seq<char>) -> Seq<char>
    decreases q.len(),
{
    if q.len() == 0 {
        Seq::empty()
    } else {
        wildcard_regex(q.drop_last()) + wildcard_piece(q.last())
    }
}

proof fn lemma_replace_splits(x: Seq<char>, y: Seq<char>, pat: Seq<char>, rep: Seq<char>)
    requires
        pat.len() == 2,
        pat[0] == '\\',
        x.len() == 0 || x.last() != '\\',
    ensures
        replace_text(x + y, pat, rep) == replace_text(x, pat, rep) + replace_text(y, pat, rep),
    decreases x.len(),
{
    if x.len() == 0 {
        assert(x + y =~= y);
        assert(replace_text(x, pat, rep) =~= Seq::<char>::empty());
    } else if x.len() == 1 {
        if y.len() == 0 {
            assert(x + y =~= x);
            assert(replace_text(y, pat, rep) == y);
        } else {
            assert((x + y).take(2)[0] == x[0]);
            assert(x[0] == x.last());
            assert((x + y).take(2) != pat);
            assert((x + y).skip(1) =~= y);
            assert((x + y)[0] == x[0]);
        }
    } else {
        assert((x + y).take(2) =~= x.take(2));
        assert((x + y)[0] == x[0]);
        if x.take(2) == pat {
            assert((x + y).skip(2) =~= x.skip(2) + y);
            if x.skip(2).len() > 0 {
                assert(x.skip(2).last() == x.last());
            }
            lemma_replace_splits(x.skip(2), y, pat, rep);
        } else {
            assert((x + y).skip(1) =~= x.skip(1) + y);
            assert(x.skip(1).last() == x.last());
            lemma_replace_splits(x.skip(1), y, pat, rep);
        }
    }
}

/// In wildcard mode a query without backslashes becomes its pattern
/// character by character: `*` matches any run of characters, `?` any one
/// character, and every other character only itself (regex meta characters
/// behind a backslash).
pub proof fn lemma_wildcard_pattern(q: Seq<char>)
    requires
        !q.contains('\\'),
    ensures
        search_pattern_text(q, false, true) == wildcard_regex(q),
        search_pattern_text(q, false, false) == seq!['(', '?', 'i', ')'] + wildcard_regex(q),
{
    lemma_wildcard_steps(q);
    lemma_search_case_flag(q, false);
}

proof fn lemma_wildcard_steps(q: Seq<char>)
    requires
        !q.contains('\\'),
    ensures
        escaped(q).len() == 0 || escaped(q).last() != '\\',
        replace_text(escaped(q), "\\*"@, ".*"@).len() == 0 || replace_text(escaped(q), "\\*"@, ".*"@).last() != '\\',
        replace_text(replace_text(escaped(q), "\\*"@, ".*"@), "\\?"@, "."@) == wildcard_regex(q),
    decreases q.len(),
{
    reveal_strlit("\\*");
    reveal_strlit("\\?");
    reveal_strlit(".*");
    reveal_strlit(".");
    let star = "\\*"@;
    let ques = "\\?"@;
    let any = ".*"@;
    let one = "."@;
    assert(star =~= seq!['\\', '*']);
    assert(ques =~= seq!['\\', '?']);
    assert(any =~= seq!['.', '*']);
    assert(one =~= seq!['.']);
    if q.len() == 0 {
        assert(escaped(q) =~= Seq::<char>::empty());
        assert(replace_text(Seq::<char>::empty(), star, any) =~= Seq::<char>::empty());
        assert(replace_text(Seq::<char>::empty(), ques, one) =~= Seq::<char>::empty());
    } else {
        let p = q.drop_last();
        let c = q.last();
        assert(!p.contains('\\')) by {
            if p.contains('\\') {
                let i = choose|i: int| 0 <= i < p.len() && p[i] == '\\';
                assert(q[i] == '\\');
            }
        }
        assert(c != '\\') by {
            assert(q[q.len() - 1] == c);
        }
        lemma_wildcard_steps(p);
        let ep = if is_meta(c) { seq!['\\', c] } else { seq![c] };
        assert(escaped(q) =~= escaped(p) + ep);
        let r1p = replace_text(escaped(p), star, any);
        let r1e = replace_text(ep, star, any);
        lemma_replace_splits(escaped(p), ep, star, any);
        // what the first replacement makes of the last piece
        if is_meta(c) {
            assert(ep.take(2) =~= ep);
            assert(ep.skip(2) =~= Seq::<char>::empty());
            assert(ep.skip(1) =~= seq![c]);
            if c == '*' {
                assert(ep =~= star);
                assert(replace_text(ep.skip(2), star, any) =~= Seq::<char>::empty());
                assert(r1e == any + replace_text(ep.skip(2), star, any));
                assert(r1e =~= any);
            } else {
                assert(ep[1] != star[1]);
                assert(ep.take(2) != star);
                assert(replace_text(ep.skip(1), star, any) == seq![c]);
                assert(r1e == seq![ep[0]] + replace_text(ep.skip(1), star, any));
                assert(r1e =~= seq!['\\', c]);
            }
        } else {
            assert(r1e == ep);
        }
        assert(replace_text(escaped(q), star, any) == r1p + r1e);
        lemma_replace_splits(r1p, r1e, ques, one);
        let r2e = replace_text(r1e, ques, one);
        if c == '*' {
            assert(r1e.take(2) =~= r1e);
            assert(r1e.take(2) != ques);
            assert(r1e.skip(1) =~= seq!['*']);
            assert(replace_text(r1e.skip(1), ques, one) == seq!['*']);
            assert(r2e == seq![r1e[0]] + replace_text(r1e.skip(1), ques, one));
            assert(r2e =~= seq!['.', '*']);
        } else if c == '?' {
            assert(r1e.take(2) =~= r1e);
            assert(r1e.skip(2) =~= Seq::<char>::empty());
            assert(r1e =~= ques);
            assert(replace_text(r1e.skip(2), ques, one) =~= Seq::<char>::empty());
            assert(r2e == one + replace_text(r1e.skip(2), ques, one));
            assert(r2e =~= seq!['.']);
        } else if is_meta(c) {
            assert(r1e.take(2) =~= r1e);
            assert(r1e != ques);
            assert(r1e.skip(1) =~= seq![c]);
            assert(r1e[1] != ques[1]);
            assert(replace_text(r1e.skip(1), ques, one) == seq![c]);
            assert(r2e == seq![r1e[0]] + replace_text(r1e.skip(1), ques, one));
            assert(r2e =~= seq!['\\', c]);
        } else {
            assert(r2e == r1e);
        }
        assert(r2e == wildcard_piece(c));
    }
}

} // verus!
