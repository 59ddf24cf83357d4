//! Drag-to-reorder for a vertical list (the queue and the playlists in the
//! sidebar): which row is dragged over which slot, the move a drop commits,
//! and holding the preview until the new order arrives.

use vstd::prelude::*;

use crate::text::views;

verus! {

broadcast use vstd::string::group_string_axioms;

/// The state of a drag over one list.
pub struct DragReorder {
    /// Row being dragged.
    pub src: Option<usize>,
    /// Slot it hovers.
    pub over: Option<usize>,
    /// The list's order (by ID) when a move was dropped, held until the new
    /// order arrives so the preview does not snap back meanwhile.
    pub committed: Option<Vec<String>>,
    /// One of this list's rows is being dragged (a file dragged over the
    /// window is not).
    pub active: bool,
}

/// The IDs of two lists agree.
pub open spec fn same_order(a: Seq<String>, b: Seq<String>) -> bool {
    views(a) == views(b)
}

fn same_ids(a: &Vec<String>, b: &Vec<String>) -> (r: bool)
    ensures
        r == same_order(a@, b@),
{
    if a.len() != b.len() {
        proof {
            assert(views(a@).len() != views(b@).len());
        }
        return false;
    }
    let mut i: usize = 0;
    while i < a.len()
        invariant
            a@.len() == b@.len(),
            i <= a@.len(),
            forall|j: int| 0 <= j < i ==> a@[j]@ == b@[j]@,
        decreases a.len() - i,
    {
        if a[i] != b[i] {
            proof {
                assert(views(a@)[i as int] != views(b@)[i as int]);
            }
            return false;
        }
        i = i + 1;
    }
    assert(views(a@) =~= views(b@));
    true
}

impl DragReorder {
    /// No drag in progress.
    pub fn new() -> (r: Self)
        ensures
            r.src is None,
            r.over is None,
            r.committed is None,
            !r.active,
    {
        DragReorder { src: None, over: None, committed: None, active: false }
    }

    /// Row `i` starts being dragged; any held preview is let go.
    pub fn drag_start(&mut self, i: usize)
        ensures
            final(self).src == Some(i),
            final(self).over == old(self).over,
            final(self).committed is None,
            final(self).active,
    {
        self.committed = None;
        self.active = true;
        self.src = Some(i);
    }

    /// The pointer hovers slot `slot` (none when it cannot be told); only a
    /// drag of this list's rows follows it.
    pub fn drag_over(&mut self, slot: Option<usize>)
        ensures
            final(self).over == if old(self).active && slot is Some {
                slot
            } else {
                old(self).over
            },
            final(self).src == old(self).src,
            final(self).committed == old(self).committed,
            final(self).active == old(self).active,
    {
        if !self.active {
            return;
        }
        match slot {
            Some(s) => {
                self.over = Some(s);
            },
            None => {},
        }
    }

    /// The row is dropped while the list reads `ids`. A real move (a row
    /// over another slot) is returned as `(from, to)` and the preview is held
    /// until the new order lands; otherwise the drag is cleared.
    pub fn drop(&mut self, ids: Vec<String>) -> (r: Option<(usize, usize)>)
        ensures
            !final(self).active,
            match (old(self).src, old(self).over) {
                (Some(f), Some(t)) if f != t => r == Some((f, t)) && final(self).committed == Some(ids)
                    && final(self).src == old(self).src && final(self).over == old(self).over,
                _ => r is None && final(self).src is None && final(self).over is None && final(self).committed
                    == old(self).committed,
            },
    {
        self.active = false;
        match (self.src, self.over) {
            (Some(f), Some(t)) => {
                if f != t {
                    self.committed = Some(ids);
                    return Some((f, t));
                }
            },
            _ => {},
        }
        self.src = None;
        self.over = None;
        None
    }

    /// The drag ended (after a drop or not): cleared, unless a dropped move
    /// is still waiting for its new order.
    pub fn drag_end(&mut self)
        ensures
            !final(self).active,
            final(self).committed == old(self).committed,
            old(self).committed is Some ==> final(self).src == old(self).src && final(self).over == old(self).over,
            old(self).committed is None ==> final(self).src is None && final(self).over is None,
    {
        self.active = false;
        if self.committed.is_some() {
            return;
        }
        self.src = None;
        self.over = None;
    }

    /// The list now reads `ids`. When it differs from a held order, the
    /// dropped move has landed and the drag is cleared in the same step.
    /// Returns the dragged row and hovered slot the preview shows.
    pub fn observe(&mut self, ids: &Vec<String>) -> (r: (Option<usize>, Option<usize>))
        ensures
            match old(self).committed {
                Some(held) if !same_order(held@, ids@) => final(self).committed is None && !final(self).active
                    && final(self).src is None && final(self).over is None && r == (None::<usize>, None::<usize>),
                _ => *final(self) == *old(self) && r == (old(self).src, old(self).over),
            },
    {
        let landed = match &self.committed {
            Some(held) => !same_ids(held, ids),
            None => false,
        };
        if landed {
            self.committed = None;
            self.active = false;
            self.src = None;
            self.over = None;
            (None, None)
        } else {
            (self.src, self.over)
        }
    }

    /// Safety net some time after a drop that held the order `settled`: if
    /// that order is still held (the move was refused, so no new order came),
    /// the preview is dropped. A newer drag is left alone.
    pub fn settle(&mut self, settled: &Vec<String>)
        ensures
            match old(self).committed {
                Some(held) if same_order(held@, settled@) => final(self).committed is None && final(self).src is None
                    && final(self).over is None && final(self).active == old(self).active,
                _ => *final(self) == *old(self),
            },
    {
        let stale = match &self.committed {
            Some(held) => same_ids(held, settled),
            None => false,
        };
        if stale {
            self.committed = None;
            self.src = None;
            self.over = None;
        }
    }
}

} // verus!
