//! Queue mutations (remove / append / insert-next / move) and their outcomes.
//! They touch only the decision state, so the index bookkeeping is checked
//! here and the caller acts on the returned outcome.

use vstd::prelude::*;

use crate::model::Track;
use super::state::{PlayerCore, fresh_tracks, has_id, queue_has_id, same_playback};

verus! {

/// What the caller should do after [`remove_from_queue`] mutates the core.
#[derive(Debug, Clone, Copy, PartialEq, Eq, Structural)]
pub enum RemoveOutcome {
    /// Index was out of range; nothing changed.
    NoChange,
    /// Queue changed but playback didn't; just re-broadcast.
    EmitOnly,
    /// The playing track was removed; start the one that took its slot.
    PlayIndex(usize),
    /// The playing track was the last one; stop.
    Stop,
}

/// Outcome of adding tracks to the queue.
#[derive(Debug, Clone, Copy, PartialEq, Eq, Structural)]
pub enum AddOutcome {
    /// Tracks were added to a running queue; just re-broadcast.
    EmitOnly,
    /// Nothing was playing; start the track that landed at this index.
    PlayIndex(usize),
}

/// Remove the track at `index`, fixing up `current` and resetting the shuffle
/// history (queue indices shift on removal).
pub fn remove_from_queue(core: &mut PlayerCore, index: usize) -> (r: RemoveOutcome)
    ensures
        index >= old(core).queue@.len() ==> r == RemoveOutcome::NoChange && *final(core) == *old(core),
        index < old(core).queue@.len() ==> {
            &&& final(core).queue@ == old(core).queue@.remove(index as int)
            &&& final(core).shuffle_cursor == 0
            &&& final(core).pending_next == old(core).pending_next
            &&& same_playback(*old(core), *final(core))
            &&& match old(core).current {
                Some(cur) => if index < cur {
                    &&& final(core).current == Some((cur - 1) as usize)
                    &&& final(core).shuffle_history@ == seq![(cur - 1) as usize]
                    &&& r == RemoveOutcome::EmitOnly
                } else if index == cur {
                    &&& final(core).shuffle_history@.len() == 0
                    &&& if old(core).queue@.len() == 1 {
                        final(core).current is None && r == RemoveOutcome::Stop
                    } else {
                        &&& final(core).current == old(core).current
                        &&& r == RemoveOutcome::PlayIndex(
                            if cur < old(core).queue@.len() - 2 { cur } else { (old(core).queue@.len() - 2) as usize },
                        )
                    }
                } else {
                    &&& final(core).current == old(core).current
                    &&& final(core).shuffle_history@ == seq![cur]
                    &&& r == RemoveOutcome::EmitOnly
                },
                None => {
                    &&& final(core).current is None
                    &&& final(core).shuffle_history@.len() == 0
                    &&& r == RemoveOutcome::EmitOnly
                },
            }
        },
{
    if index >= core.queue.len() {
        return RemoveOutcome::NoChange;
    }
    core.queue.remove(index);
    core.shuffle_history.clear();
    core.shuffle_cursor = 0;
    match core.current {
        Some(cur) => {
            if index < cur {
                core.current = Some(cur - 1);
                core.shuffle_history = vec![cur - 1];
                RemoveOutcome::EmitOnly
            } else if index == cur {
                if core.queue.len() == 0 {
                    core.current = None;
                    RemoveOutcome::Stop
                } else {
                    let last = core.queue.len() - 1;
                    RemoveOutcome::PlayIndex(if cur < last { cur } else { last })
                }
            } else {
                core.shuffle_history = vec![cur];
                RemoveOutcome::EmitOnly
            }
        },
        None => RemoveOutcome::EmitOnly,
    }
}

/// Drop tracks whose id is already in the queue so adds stay idempotent.
pub fn dedupe_new(queue: &Vec<Track>, tracks: Vec<Track>) -> (r: Vec<Track>)
    ensures
        r@ == fresh_tracks(queue@, tracks@),
{
    let ghost all = tracks@;
    let ghost pred = |t: Track| !has_id(queue@, t.id@);
    let mut out: Vec<Track> = Vec::new();
    for t in it: tracks
        invariant
            it.seq() == all,
            pred == (|t: Track| !has_id(queue@, t.id@)),
            out@ == all.take(it.index()).filter(pred),
    {
        let ghost idx = it.index();
        let ghost tv = t;
        proof {
            assert(all.take(idx + 1).drop_last() =~= all.take(idx));
            assert(all.take(idx + 1).last() == tv);
        }
        let seen = queue_has_id(queue, &t.id);
        if !seen {
            out.push(t);
        }
        proof {
            reveal_with_fuel(Seq::<_>::filter, 1);
            assert(pred(tv) == !seen);
            assert(out@ == all.take(idx + 1).filter(pred));
        }
    }
    proof {
        assert(all.take(all.len() as int) =~= all);
    }
    out
}

/// `after` and `r` are what appending `tracks` to `before` gives: the tracks
/// whose ids are not queued yet go to the end in order, nothing else moves,
/// and the first added one starts when nothing was playing. When nothing is
/// new the player is left exactly as it was.
pub open spec fn append_result(before: PlayerCore, tracks: Seq<Track>, after: PlayerCore, r: AddOutcome) -> bool {
    let new = fresh_tracks(before.queue@, tracks);
    &&& after.queue@ == before.queue@ + new
    &&& after.current == before.current
    &&& after.shuffle_history == before.shuffle_history
    &&& after.shuffle_cursor == before.shuffle_cursor
    &&& after.pending_next == before.pending_next
    &&& same_playback(before, after)
    &&& r == if new.len() > 0 && before.current is None {
        AddOutcome::PlayIndex(before.queue@.len() as usize)
    } else {
        AddOutcome::EmitOnly
    }
    &&& new.len() == 0 ==> after == before
}

/// Append `tracks` (minus ids already queued) to the end of the queue.
/// Appending never shifts existing indices, so the shuffle history stays
/// valid. If nothing is playing, signals to start at the first added track.
pub fn append_tracks(core: &mut PlayerCore, tracks: Vec<Track>) -> (r: AddOutcome)
    ensures
        append_result(*old(core), tracks@, *final(core), r),
{
    let start = core.queue.len();
    let mut new = dedupe_new(&core.queue, tracks);
    if new.len() == 0 {
        assert(old(core).queue@ + fresh_tracks(old(core).queue@, tracks@) =~= old(core).queue@);
        return AddOutcome::EmitOnly;
    }
    core.queue.append(&mut new);
    match core.current {
        Some(_) => AddOutcome::EmitOnly,
        None => AddOutcome::PlayIndex(start),
    }
}

/// Insert `tracks` (minus ids already queued) right after the current track
/// so they play next, resetting the shuffle history to the current track and
/// dropping any prefetched crossfade pick. With nothing playing this behaves
/// like [`append_tracks`]: they go to the end and the first one starts.
pub fn insert_next(core: &mut PlayerCore, tracks: Vec<Track>) -> (r: AddOutcome)
    requires
        fresh_tracks(old(core).queue@, tracks@).len() > 0 ==> match old(core).current {
            Some(c) => c < old(core).queue@.len(),
            None => true,
        },
    ensures
        ({
            let q = old(core).queue@;
            let new = fresh_tracks(q, tracks@);
            if new.len() == 0 {
                *final(core) == *old(core) && r == AddOutcome::EmitOnly
            } else {
                &&& same_playback(*old(core), *final(core))
                &&& final(core).current == old(core).current
                &&& match old(core).current {
                    Some(cur) => {
                        &&& final(core).queue@ == q.take(cur + 1) + new + q.skip(cur + 1)
                        &&& final(core).shuffle_history@ == seq![cur]
                        &&& final(core).shuffle_cursor == 0
                        &&& final(core).pending_next is None
                        &&& r == AddOutcome::EmitOnly
                    },
                    None => {
                        &&& final(core).queue@ == q + new
                        &&& final(core).shuffle_history == old(core).shuffle_history
                        &&& final(core).shuffle_cursor == old(core).shuffle_cursor
                        &&& final(core).pending_next == old(core).pending_next
                        &&& r == AddOutcome::PlayIndex(q.len() as usize)
                    },
                }
            }
        }),
{
    let mut new = dedupe_new(&core.queue, tracks);
    if new.len() == 0 {
        return AddOutcome::EmitOnly;
    }
    match core.current {
        Some(cur) => {
            assert(new@.len() > 0);
            assert(cur < core.queue.len());
            let at = cur + 1;
            let mut tail = core.queue.split_off(at);
            core.queue.append(&mut new);
            core.queue.append(&mut tail);
            core.shuffle_history = vec![cur];
            core.shuffle_cursor = 0;
            core.pending_next = None;
            AddOutcome::EmitOnly
        },
        None => {
            let start = core.queue.len();
            core.queue.append(&mut new);
            AddOutcome::PlayIndex(start)
        },
    }
}

/// Index of the first track of `q` whose id is `id`, if any.
pub fn position_of_id(q: &Vec<Track>, id: &String) -> (r: Option<usize>)
    ensures
        match r {
            Some(k) => k < q@.len() && q@[k as int].id@ == id@ && forall|j: int|
                0 <= j < k ==> (#[trigger] q@[j]).id@ != id@,
            None => !has_id(q@, id@),
        },
{
    let mut i: usize = 0;
    while i < q.len()
        invariant
            i <= q.len(),
            forall|j: int| 0 <= j < i ==> (#[trigger] q@[j]).id@ != id@,
        decreases q.len() - i,
    {
        if q[i].id == *id {
            return Some(i);
        }
        i = i + 1;
    }
    None
}

/// Move the track at `from` to `to`, keeping the playing track under the
/// cursor (followed by its id). Indices shift, so the shuffle history resets.
/// Returns false, changing nothing, for an out-of-range or no-op move.
pub fn move_in_queue(core: &mut PlayerCore, from: usize, to: usize) -> (r: bool)
    ensures
        ({
            let q = old(core).queue@;
            if from >= q.len() || to >= q.len() || from == to {
                !r && *final(core) == *old(core)
            } else {
                let q2 = q.remove(from as int).insert(to as int, q[from as int]);
                &&& r
                &&& final(core).queue@ == q2
                &&& same_playback(*old(core), *final(core))
                &&& final(core).shuffle_cursor == 0
                &&& final(core).pending_next is None
                &&& match old(core).current {
                    Some(c) if c < q.len() => final(core).current matches Some(k) && k < q2.len()
                        && q2[k as int].id@ == q[c as int].id@
                        && forall|j: int| 0 <= j < k ==> (#[trigger] q2[j]).id@ != q[c as int].id@,
                    _ => final(core).current == old(core).current,
                }
                &&& match final(core).current {
                    Some(k) => final(core).shuffle_history@ == seq![k],
                    None => final(core).shuffle_history@.len() == 0,
                }
            }
        }),
{
    let len = core.queue.len();
    if from >= len || to >= len || from == to {
        return false;
    }
    let playing_id: Option<String> = match core.current {
        Some(c) => if c < core.queue.len() { Some(core.queue[c].id.clone()) } else { None },
        None => None,
    };
    let ghost q = core.queue@;
    let track = core.queue.remove(from);
    core.queue.insert(to, track);
    match playing_id {
        Some(id) => {
            let pos = position_of_id(&core.queue, &id);
            proof {
                let c = old(core).current->0;
                let q2 = core.queue@;
                // the playing track is still in the queue after the move
                let k: int = if c == from { to as int } else {
                    let c1: int = if (c as int) < (from as int) { c as int } else { c - 1 };
                    if c1 < to { c1 } else { c1 + 1 }
                };
                assert(q2[k].id@ == id@);
                assert(has_id(q2, id@));
            }
            core.current = pos;
        },
        None => {},
    }
    core.shuffle_history = match core.current {
        Some(k) => vec![k],
        None => Vec::new(),
    };
    core.shuffle_cursor = 0;
    core.pending_next = None;
    true
}

/// Put the refreshed copy `track` of a queued track back in its slot
/// `index`, if that slot still holds the same track (the queue may have
/// changed meanwhile). Returns whether it did.
pub fn refresh_queued(core: &mut PlayerCore, index: usize, track: Track) -> (r: bool)
    ensures
        r == (index < old(core).queue@.len() && old(core).queue@[index as int].id@ == track.id@),
        r ==> final(core).queue@ == old(core).queue@.update(index as int, track),
        !r ==> final(core).queue@ == old(core).queue@,
        same_playback(*old(core), *final(core)),
        final(core).current == old(core).current,
        final(core).shuffle_history == old(core).shuffle_history,
        final(core).shuffle_cursor == old(core).shuffle_cursor,
        final(core).pending_next == old(core).pending_next,
{
    if index < core.queue.len() && core.queue[index].id == track.id {
        core.queue.set(index, track);
        true
    } else {
        false
    }
}

} // verus!
