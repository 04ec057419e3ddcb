//! Back / forward / up history of one browsing location.
use vstd::prelude::*;
use crate::paths::{is_empty_or_root, parent_of, path_parent, same_path, paths_equal};

verus! {

/// The history as values: where one stands, what lies behind (most recent
/// last) and what lies ahead (next one last).
pub struct History {
    pub current: Seq<char>,
    pub back: Seq<Seq<char>>,
    pub forward: Seq<Seq<char>>,
}

impl History {
    /// After opening `p`: the old location is pushed behind, nothing lies
    /// ahead.
    pub open spec fn navigated(self, p: Seq<char>) -> History {
        History { current: p, back: self.back.push(self.current), forward: Seq::empty() }
    }

    /// After one step back (meaningful when something lies behind).
    pub open spec fn went_back(self) -> History {
        History {
            current: self.back.last(),
            back: self.back.drop_last(),
            forward: self.forward.push(self.current),
        }
    }

    /// After one step forward (meaningful when something lies ahead).
    pub open spec fn went_forward(self) -> History {
        History {
            current: self.forward.last(),
            back: self.back.push(self.current),
            forward: self.forward.drop_last(),
        }
    }

    /// Every location of the history in visiting order: what lies behind,
    /// the current one, then what lies ahead.
    pub open spec fn timeline(self) -> Seq<Seq<char>> {
        self.back.push(self.current) + self.forward.reverse()
    }

    /// Where the history stands within its timeline.
    pub open spec fn position(self) -> nat {
        self.back.len()
    }
}

/// A step through the history: the back, forward and up commands.
#[derive(Clone, Copy, Debug, PartialEq, Eq, Structural)]
pub enum NavStep {
    Back,
    Forward,
    Up,
}

/// The history of one browsing location.
pub struct NavigationState {
    current: String,
    back_stack: Vec<String>,
    forward_stack: Vec<String>,
}

impl View for NavigationState {
    type V = History;

    closed spec fn view(&self) -> History {
        History {
            current: self.current@,
            back: self.back_stack@.map_values(|s: String| s@),
            forward: self.forward_stack@.map_values(|s: String| s@),
        }
    }
}

impl NavigationState {
    /// Where the history stands.
    pub fn current_path(&self) -> (res: &str)
        ensures
            res@ == self@.current,
    {
        self.current.as_str()
    }

    /// A history that stands at `start` with nothing behind or ahead.
    pub fn new(start: String) -> (res: Self)
        ensures
            res@ == (History { current: start@, back: Seq::empty(), forward: Seq::empty() }),
    {
        let res = NavigationState { current: start, back_stack: Vec::new(), forward_stack: Vec::new() };
        assert(res@.back =~= Seq::<Seq<char>>::empty());
        assert(res@.forward =~= Seq::<Seq<char>>::empty());
        res
    }

    /// Opens `path`: the current location goes behind, the way ahead is
    /// dropped.
    pub fn navigate_to(&mut self, path: String)
        ensures
            final(self)@ == old(self)@.navigated(path@),
    {
        let ghost old_view = self@;
        let prev = self.current.clone();
        self.back_stack.push(prev);
        self.current = path;
        self.forward_stack.clear();
        assert(self@.back =~= old_view.back.push(old_view.current));
        assert(self@.forward =~= Seq::<Seq<char>>::empty());
    }

    /// Steps back when something lies behind; answers whether it did.
    pub fn go_back(&mut self) -> (moved: bool)
        ensures
            moved == (old(self)@.back.len() > 0),
            moved ==> final(self)@ == old(self)@.went_back(),
            !moved ==> final(self)@ == old(self)@,
    {
        let ghost old_view = self@;
        match self.back_stack.pop() {
            Some(prev) => {
                let cur = self.current.clone();
                self.forward_stack.push(cur);
                self.current = prev;
                assert(self@.back =~= old_view.back.drop_last());
                assert(self@.forward =~= old_view.forward.push(old_view.current));
                true
            }
            None => false,
        }
    }

    /// Steps forward when something lies ahead; answers whether it did.
    pub fn go_forward(&mut self) -> (moved: bool)
        ensures
            moved == (old(self)@.forward.len() > 0),
            moved ==> final(self)@ == old(self)@.went_forward(),
            !moved ==> final(self)@ == old(self)@,
    {
        let ghost old_view = self@;
        match self.forward_stack.pop() {
            Some(next) => {
                let cur = self.current.clone();
                self.back_stack.push(cur);
                self.current = next;
                assert(self@.back =~= old_view.back.push(old_view.current));
                assert(self@.forward =~= old_view.forward.drop_last());
                true
            }
            None => false,
        }
    }

    /// Opens the parent of the current location when it has one that
    /// differs from it; answers whether it did.
    pub fn go_up(&mut self) -> (moved: bool)
        ensures
            moved == (parent_of(old(self)@.current) matches Some(q) && !same_path(q, old(self)@.current)),
            moved ==> final(self)@ == old(self)@.navigated(parent_of(old(self)@.current)->0),
            !moved ==> final(self)@ == old(self)@,
            is_empty_or_root(old(self)@.current) ==> !moved,
    {
        match path_parent(self.current.as_str()) {
            Some(parent) => {
                if !paths_equal(parent.as_str(), self.current.as_str()) {
                    self.navigate_to(parent);
                    true
                } else {
                    false
                }
            }
            None => false,
        }
    }

    /// Takes one step of the history and answers the location it leads
    /// to, or `None` (and no change) when that step is not possible.
    pub fn take_step(&mut self, step: NavStep) -> (res: Option<String>)
        ensures
            match step {
                NavStep::Back => if old(self)@.back.len() > 0 {
                    final(self)@ == old(self)@.went_back()
                } else {
                    final(self)@ == old(self)@
                },
                NavStep::Forward => if old(self)@.forward.len() > 0 {
                    final(self)@ == old(self)@.went_forward()
                } else {
                    final(self)@ == old(self)@
                },
                NavStep::Up => if parent_of(old(self)@.current) matches Some(q) && !same_path(q, old(self)@.current) {
                    final(self)@ == old(self)@.navigated(parent_of(old(self)@.current)->0)
                } else {
                    final(self)@ == old(self)@
                },
            },
            match res {
                Some(p) => final(self)@ != old(self)@ && p@ == final(self)@.current,
                None => final(self)@ == old(self)@,
            },
    {
        let moved = match step {
            NavStep::Back => self.go_back(),
            NavStep::Forward => self.go_forward(),
            NavStep::Up => self.go_up(),
        };
        if moved {
            Some(self.current.clone())
        } else {
            None
        }
    }

    /// Whether something lies behind.
    pub fn can_go_back(&self) -> (res: bool)
        ensures
            res == (self@.back.len() > 0),
    {
        self.back_stack.len() > 0
    }

    /// Whether something lies ahead.
    pub fn can_go_forward(&self) -> (res: bool)
        ensures
            res == (self@.forward.len() > 0),
    {
        self.forward_stack.len() > 0
    }
}

/// Going back right after opening a location returns to where one was, with
/// that location as the only one ahead.
pub proof fn lemma_back_after_navigate(h: History, p: Seq<char>)
    ensures
        h.navigated(p).back.len() > 0,
        h.navigated(p).went_back() == (History { current: h.current, back: h.back, forward: seq![p] }),
{
    assert(h.navigated(p).back.drop_last() =~= h.back);
    assert(Seq::<Seq<char>>::empty().push(p) =~= seq![p]);
}

/// One step forward undoes one step back.
pub proof fn lemma_forward_undoes_back(h: History)
    requires
        h.back.len() > 0,
    ensures
        h.went_back().forward.len() > 0,
        h.went_back().went_forward() == h,
{
    assert(h.went_back().went_forward().back =~= h.back);
    assert(h.went_back().went_forward().forward =~= h.forward);
}

/// One step back undoes one step forward.
pub proof fn lemma_back_undoes_forward(h: History)
    requires
        h.forward.len() > 0,
    ensures
        h.went_forward().back.len() > 0,
        h.went_forward().went_back() == h,
{
    assert(h.went_forward().went_back().back =~= h.back);
    assert(h.went_forward().went_back().forward =~= h.forward);
}

/// Stepping back or forward moves along the timeline without changing it.
pub proof fn lemma_steps_keep_timeline(h: History)
    ensures
        h.back.len() > 0 ==> h.went_back().timeline() == h.timeline()
            && h.went_back().position() + 1 == h.position(),
        h.forward.len() > 0 ==> h.went_forward().timeline() == h.timeline()
            && h.went_forward().position() == h.position() + 1,
{
    if h.back.len() > 0 {
        let g = h.went_back();
        assert(g.forward.reverse() =~= seq![h.current] + h.forward.reverse());
        assert(h.back.drop_last().push(h.back.last()) =~= h.back);
        assert(g.timeline() =~= h.timeline());
    }
    if h.forward.len() > 0 {
        let g = h.went_forward();
        assert(h.forward.reverse() =~= seq![h.forward.last()] + h.forward.drop_last().reverse());
        assert(g.timeline() =~= h.timeline());
    }
}

/// Opening a location keeps everything behind the current one, adds the
/// current one behind it and drops the way ahead.
pub proof fn lemma_navigate_truncates_timeline(h: History, p: Seq<char>)
    ensures
        h.navigated(p).timeline() == h.timeline().take(h.position() as int + 1).push(p),
{
    let t = h.timeline();
    assert(t.take(h.back.len() as int + 1) =~= h.back.push(h.current));
    assert(h.navigated(p).timeline() =~= h.back.push(h.current).push(p));
}

} // verus!
