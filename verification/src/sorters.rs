//! The column sorters and the row filter of the file views.
use vstd::prelude::*;
use crate::listing::{DirEntry, EntryView, row_le};
use crate::text::{unicode_lowercase, to_lowercase, text_le, text_before_eq, same_text, contains, contains_text, starts_with, has_prefix, lemma_text_le_total, lemma_text_le_antisym, lemma_text_le_refl};

verus! {

/// Which of two rows a sorter puts first.
#[derive(Clone, Copy, Debug, PartialEq, Eq, Structural)]
pub enum Order {
    Smaller,
    Equal,
    Larger,
}

/// The order of two texts by `str::cmp`.
pub open spec fn text_rank(a: Seq<char>, b: Seq<char>) -> Order {
    if a == b {
        Order::Equal
    } else if text_le(a, b) {
        Order::Smaller
    } else {
        Order::Larger
    }
}

/// The order of two numbers.
pub open spec fn number_rank(a: int, b: int) -> Order {
    if a < b {
        Order::Smaller
    } else if a == b {
        Order::Equal
    } else {
        Order::Larger
    }
}

/// Directories before files; rows of the same kind by `within`.
pub open spec fn dirs_first(a: EntryView, b: EntryView, within: Order) -> Order {
    if a.is_dir && !b.is_dir {
        Order::Smaller
    } else if !a.is_dir && b.is_dir {
        Order::Larger
    } else {
        within
    }
}

/// The name column's order: directories first, then by lowercased name.
pub open spec fn name_rank(a: EntryView, b: EntryView) -> Order {
    dirs_first(a, b, text_rank(unicode_lowercase(a.name), unicode_lowercase(b.name)))
}

/// The size column's order: directories first, then by size.
pub open spec fn size_rank(a: EntryView, b: EntryView) -> Order {
    dirs_first(a, b, number_rank(a.size as int, b.size as int))
}

/// The date column's order: directories first, then by modification time.
pub open spec fn date_rank(a: EntryView, b: EntryView) -> Order {
    dirs_first(a, b, number_rank(a.modified as int, b.modified as int))
}

/// The order of two texts.
pub fn text_order(a: &str, b: &str) -> (res: Order)
    ensures
        res == text_rank(a@, b@),
{
    if same_text(a, b) {
        Order::Equal
    } else if text_before_eq(a, b) {
        Order::Smaller
    } else {
        Order::Larger
    }
}

fn kinds_first(a: &DirEntry, b: &DirEntry) -> (res: Option<Order>)
    ensures
        match res {
            Some(o) => o == dirs_first(a@, b@, Order::Equal) && a.is_dir != b.is_dir,
            None => a.is_dir == b.is_dir,
        },
{
    if a.is_dir && !b.is_dir {
        Some(Order::Smaller)
    } else if !a.is_dir && b.is_dir {
        Some(Order::Larger)
    } else {
        None
    }
}

/// Compares two rows for the name column.
pub fn name_sorter(a: &DirEntry, b: &DirEntry) -> (res: Order)
    ensures
        res == name_rank(a@, b@),
{
    match kinds_first(a, b) {
        Some(o) => o,
        None => {
            let x = to_lowercase(a.name.as_str());
            let y = to_lowercase(b.name.as_str());
            text_order(x.as_str(), y.as_str())
        }
    }
}

/// Compares two rows for the size column.
pub fn size_sorter(a: &DirEntry, b: &DirEntry) -> (res: Order)
    ensures
        res == size_rank(a@, b@),
{
    match kinds_first(a, b) {
        Some(o) => o,
        None => if a.size < b.size {
            Order::Smaller
        } else if a.size == b.size {
            Order::Equal
        } else {
            Order::Larger
        },
    }
}

/// Compares two rows for the date column.
pub fn date_sorter(a: &DirEntry, b: &DirEntry) -> (res: Order)
    ensures
        res == date_rank(a@, b@),
{
    match kinds_first(a, b) {
        Some(o) => o,
        None => if a.modified < b.modified {
            Order::Smaller
        } else if a.modified == b.modified {
            Order::Equal
        } else {
            Order::Larger
        },
    }
}

/// The order read the other way round.
pub open spec fn flipped(o: Order) -> Order {
    match o {
        Order::Smaller => Order::Larger,
        Order::Equal => Order::Equal,
        Order::Larger => Order::Smaller,
    }
}

/// Each sorter answers the opposite when its rows are swapped.
pub proof fn lemma_sorters_antisymmetric(a: EntryView, b: EntryView)
    ensures
        name_rank(b, a) == flipped(name_rank(a, b)),
        size_rank(b, a) == flipped(size_rank(a, b)),
        date_rank(b, a) == flipped(date_rank(a, b)),
{
    let x = unicode_lowercase(a.name);
    let y = unicode_lowercase(b.name);
    lemma_text_le_total(x, y);
    if text_le(x, y) && text_le(y, x) {
        lemma_text_le_antisym(x, y);
    }
}

/// The name column sorts rows as the directory listing orders them: a row
/// comes no later than another exactly when the listing may put it first.
pub proof fn lemma_name_sorter_matches_listing(a: EntryView, b: EntryView)
    ensures
        (name_rank(a, b) != Order::Larger) == row_le(a, b),
{
    lemma_text_le_refl(unicode_lowercase(a.name));
}

/// Whether a row is shown: hidden files only when hidden files are shown,
/// and, with a filter, only names whose lowercase form holds it.
pub open spec fn shown(name: Seq<char>, show_hidden: bool, filter: Seq<char>) -> bool {
    !(!show_hidden && has_prefix(name, "."@))
        && (filter.len() == 0 || contains_text(unicode_lowercase(name), filter))
}

/// Whether the row named `name` is shown, given whether hidden files are
/// shown and the lowercased filter text.
pub fn entry_visible(name: &str, show_hidden: bool, filter: &str) -> (res: bool)
    ensures
        res == shown(name@, show_hidden, filter@),
{
    if !show_hidden && starts_with(name, ".") {
        return false;
    }
    if filter.is_empty() {
        return true;
    }
    let lower = to_lowercase(name);
    contains(lower.as_str(), filter)
}

/// The filter text as the filter compares it: lowercased.
pub fn filter_key(text: &str) -> (res: String)
    ensures
        res@ == unicode_lowercase(text@),
{
    to_lowercase(text)
}

/// With hidden files shown and an empty filter every row is shown; hiding
/// hidden files hides exactly the names that start with a dot; a filter
/// only ever hides rows.
pub proof fn lemma_filter_rules(name: Seq<char>, show_hidden: bool, filter: Seq<char>)
    ensures
        shown(name, true, Seq::empty()),
        shown(name, false, Seq::empty()) == !has_prefix(name, "."@),
        shown(name, show_hidden, filter) ==> shown(name, show_hidden, Seq::empty()),
{
}

} // verus!

verus! {

/// Every column sorter puts a directory before a file, whatever their
/// names, sizes and dates.
pub proof fn lemma_directories_first(d: EntryView, f: EntryView)
    requires
        d.is_dir,
        !f.is_dir,
    ensures
        name_rank(d, f) == Order::Smaller,
        size_rank(d, f) == Order::Smaller,
        date_rank(d, f) == Order::Smaller,
        name_rank(f, d) == Order::Larger,
        size_rank(f, d) == Order::Larger,
        date_rank(f, d) == Order::Larger,
{
}

/// Between two files, or two directories, the size column compares the
/// full sizes: smaller first, equal sizes tie, larger last.
pub proof fn lemma_size_sorter_compares_sizes(a: EntryView, b: EntryView)
    requires
        a.is_dir == b.is_dir,
    ensures
        (size_rank(a, b) == Order::Smaller) <==> a.size < b.size,
        (size_rank(a, b) == Order::Equal) <==> a.size == b.size,
        (size_rank(a, b) == Order::Larger) <==> a.size > b.size,
{
}

/// Between two files, or two directories, the date column compares the
/// full modification times: older first, equal times tie, newer last.
pub proof fn lemma_date_sorter_compares_dates(a: EntryView, b: EntryView)
    requires
        a.is_dir == b.is_dir,
    ensures
        (date_rank(a, b) == Order::Smaller) <==> a.modified < b.modified,
        (date_rank(a, b) == Order::Equal) <==> a.modified == b.modified,
        (date_rank(a, b) == Order::Larger) <==> a.modified > b.modified,
{
}

/// Between two files, or two directories, the name column ties exactly
/// when the case-folded names are equal, and otherwise puts first the name
/// that comes first in text order.
pub proof fn lemma_name_sorter_compares_names(a: EntryView, b: EntryView)
    requires
        a.is_dir == b.is_dir,
    ensures
        (name_rank(a, b) == Order::Equal) <==> unicode_lowercase(a.name) == unicode_lowercase(b.name),
        (name_rank(a, b) == Order::Smaller) ==> text_le(unicode_lowercase(a.name), unicode_lowercase(b.name)),
        (name_rank(a, b) == Order::Larger) ==> text_le(unicode_lowercase(b.name), unicode_lowercase(a.name)),
{
    crate::text::lemma_text_le_total(unicode_lowercase(a.name), unicode_lowercase(b.name));
}

} // verus!
