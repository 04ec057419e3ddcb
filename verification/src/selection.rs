//! The clipboard of file operations.
use vstd::prelude::*;
use crate::paths::{joined, name_or_empty, path_join, file_name_or_empty};

verus! {

/// Whether pasted files are copied or moved.
#[derive(Clone, Copy, Debug, PartialEq, Eq, Structural)]
pub enum ClipboardOp {
    Copy,
    Cut,
}

/// Paths put on the clipboard and what a paste does with them.
pub struct ClipboardState {
    pub operation: ClipboardOp,
    pub paths: Vec<String>,
}

impl Clone for ClipboardState {
    fn clone(&self) -> (res: Self)
        ensures
            res.operation == self.operation,
            res.paths@.map_values(|p: String| p@) == self.paths@.map_values(|p: String| p@),
    {
        let mut paths: Vec<String> = Vec::new();
        let mut i: usize = 0;
        while i < self.paths.len()
            invariant
                i <= self.paths.len(),
                paths@.map_values(|p: String| p@) == self.paths@.take(i as int).map_values(|p: String| p@),
            decreases self.paths.len() - i,
        {
            let ghost before = paths@.map_values(|p: String| p@);
            let c = self.paths[i].clone();
            assert(c@ == self.paths@[i as int]@);
            paths.push(c);
            assert(paths@.map_values(|p: String| p@) =~= before.push(c@));
            assert(self.paths@.take(i + 1).map_values(|p: String| p@)
                =~= self.paths@.take(i as int).map_values(|p: String| p@).push(self.paths@[i as int]@));
            i += 1;
        }
        assert(self.paths@.take(i as int) =~= self.paths@);
        ClipboardState { operation: self.operation, paths }
    }
}

/// Where each path of the clipboard lands when pasted into `dest_dir`: the
/// directory joined with the path's file name.
pub open spec fn paste_targets(paths: Seq<Seq<char>>, dest_dir: Seq<char>) -> Seq<(Seq<char>, Seq<char>)> {
    paths.map_values(|p: Seq<char>| (p, joined(dest_dir, name_or_empty(p))))
}

impl ClipboardState {
    /// The (source, destination) pairs of a paste into `dest_dir`, in the
    /// order the paths were put on the clipboard.
    pub fn paste_plan(&self, dest_dir: &str) -> (res: Vec<(String, String)>)
        ensures
            res@.map_values(|p: (String, String)| (p.0@, p.1@))
                == paste_targets(self.paths@.map_values(|p: String| p@), dest_dir@),
    {
        let ghost srcs = self.paths@.map_values(|p: String| p@);
        let mut res: Vec<(String, String)> = Vec::new();
        let mut i: usize = 0;
        while i < self.paths.len()
            invariant
                i <= self.paths.len(),
                srcs == self.paths@.map_values(|p: String| p@),
                res@.map_values(|p: (String, String)| (p.0@, p.1@))
                    == paste_targets(srcs.take(i as int), dest_dir@),
            decreases self.paths.len() - i,
        {
            let src = self.paths[i].clone();
            assert(src@ == srcs[i as int]);
            let name = file_name_or_empty(src.as_str());
            let dest = path_join(dest_dir, name.as_str());
            let ghost before = res@.map_values(|p: (String, String)| (p.0@, p.1@));
            let ghost pair = (src@, dest@);
            res.push((src, dest));
            assert(res@.map_values(|p: (String, String)| (p.0@, p.1@)) =~= before.push(pair));
            assert(srcs.take(i + 1) =~= srcs.take(i as int).push(srcs[i as int]));
            assert(paste_targets(srcs.take(i + 1), dest_dir@)
                =~= paste_targets(srcs.take(i as int), dest_dir@).push(pair));
            assert(res@.map_values(|p: (String, String)| (p.0@, p.1@))
                =~= paste_targets(srcs.take(i + 1), dest_dir@));
            i += 1;
        }
        assert(srcs.take(i as int) =~= srcs);
        res
    }

    /// Whether a paste moves the files (and so empties the clipboard).
    pub fn is_cut(&self) -> (res: bool)
        ensures
            res == (self.operation == ClipboardOp::Cut),
    {
        match self.operation {
            ClipboardOp::Cut => true,
            ClipboardOp::Copy => false,
        }
    }
}

/// The clipboard after a paste: emptied after a cut, kept after a copy.
pub fn clipboard_after_paste(clip: Option<ClipboardState>) -> (res: Option<ClipboardState>)
    ensures
        match clip {
            Some(c) => if c.operation == ClipboardOp::Cut { res is None } else { res == Some(c) },
            None => res is None,
        },
{
    match clip {
        Some(c) => if c.is_cut() { None } else { Some(c) },
        None => None,
    }
}

} // verus!

verus! {

/// A paste makes one (source, destination) pair per clipboard path, in
/// clipboard order, with the source unchanged; where a path lands depends
/// only on its file name and the destination folder, and pasting two lists
/// is pasting each in turn.
pub proof fn lemma_paste_plan(paths: Seq<Seq<char>>, more: Seq<Seq<char>>, dest_dir: Seq<char>)
    ensures
        paste_targets(paths, dest_dir).len() == paths.len(),
        forall|i: int| 0 <= i < paths.len() ==> (#[trigger] paste_targets(paths, dest_dir)[i]).0 == paths[i],
        forall|i: int, j: int| 0 <= i < paths.len() && 0 <= j < paths.len()
            && name_or_empty(paths[i]) == name_or_empty(paths[j])
            ==> (#[trigger] paste_targets(paths, dest_dir)[i]).1 == (#[trigger] paste_targets(paths, dest_dir)[j]).1,
        paste_targets(paths + more, dest_dir) == paste_targets(paths, dest_dir) + paste_targets(more, dest_dir),
{
    assert(paste_targets(paths + more, dest_dir) =~= paste_targets(paths, dest_dir) + paste_targets(more, dest_dir));
}

} // verus!
