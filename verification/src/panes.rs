//! The dual-pane view's focus, the switch between icon and details views,
//! and which page the content area shows.
use vstd::prelude::*;
use crate::text::{owned, same_text};

verus! {

/// One of the two panes.
#[derive(Clone, Copy, Debug, PartialEq, Eq, Structural)]
pub enum Side {
    Left,
    Right,
}

impl Side {
    /// The pane that is not this one: where "copy to other pane" sends
    /// files, and where focus goes on a switch.
    pub fn other(self) -> (res: Side)
        ensures
            res != self,
    {
        match self {
            Side::Left => Side::Right,
            Side::Right => Side::Left,
        }
    }
}

/// Switching focus twice comes back to the pane that had it.
pub proof fn lemma_switch_twice(s: Side)
    ensures
        (match (match s { Side::Left => Side::Right, Side::Right => Side::Left }) {
            Side::Left => Side::Right,
            Side::Right => Side::Left,
        }) == s,
{
}

/// The page the view switch shows next and whether it switched to the
/// details view: from the icon page to "details", from any other page to
/// "icon".
pub fn toggled_view(current: Option<&str>) -> (res: (&'static str, bool))
    ensures
        res.1 == (current matches Some(c) && c@ == "icon"@),
        res.1 ==> res.0@ == "details"@,
        !res.1 ==> res.0@ == "icon"@,
{
    let is_details = match current {
        Some(c) => same_text(c, "icon"),
        None => false,
    };
    if is_details {
        ("details", true)
    } else {
        ("icon", false)
    }
}

/// The page the content area shows once a directory is read: "empty" when
/// it holds no shown item, "content" otherwise.
pub fn content_page(item_count: u32) -> (res: &'static str)
    ensures
        item_count == 0 ==> res@ == "empty"@,
        item_count > 0 ==> res@ == "content"@,
{
    if item_count == 0 { "empty" } else { "content" }
}

/// Icon, title and description of the page shown for an empty directory.
pub fn empty_folder_page() -> (res: (&'static str, &'static str, &'static str))
    ensures
        res.0@ == "folder-symbolic"@,
        res.1@ == "Folder is Empty"@,
        res.2@ == "This directory contains no files."@,
{
    ("folder-symbolic", "Folder is Empty", "This directory contains no files.")
}

/// Icon and title of the page shown when a directory cannot be read; the
/// error message is its description.
pub fn error_page() -> (res: (&'static str, &'static str))
    ensures
        res.0@ == "dialog-error-symbolic"@,
        res.1@ == "Cannot Open Folder"@,
{
    ("dialog-error-symbolic", "Cannot Open Folder")
}

} // verus!
