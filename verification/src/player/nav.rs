//! Queue navigation: choosing the next and previous index, shuffle-aware.

use vstd::prelude::*;

use crate::model::RepeatMode;
use crate::random::random_u64;
use super::state::{PlayerCore, same_playback};

verus! {

/// Past this point in a track, Previous restarts it instead of going back.
pub const RESTART_THRESHOLD_MS: u64 = 3000;

/// Queue indices below `n` that `h` does not hold, in ascending order: the
/// tracks not yet played in the current shuffle cycle.
pub open spec fn unplayed(h: Seq<usize>, n: nat) -> Seq<usize>
    decreases n,
{
    if n == 0 {
        seq![]
    } else {
        let p = unplayed(h, (n - 1) as nat);
        if h.contains((n - 1) as usize) {
            p
        } else {
            p.push((n - 1) as usize)
        }
    }
}

/// Queue indices below `n` other than `cur`, in ascending order.
pub open spec fn all_but(cur: usize, n: nat) -> Seq<usize>
    decreases n,
{
    if n == 0 {
        seq![]
    } else {
        let p = all_but(cur, (n - 1) as nat);
        if (n - 1) as usize == cur {
            p
        } else {
            p.push((n - 1) as usize)
        }
    }
}

/// The outcome of a navigation step: the chosen index and the new shuffle
/// bookkeeping.
pub struct NavStep {
    pub pick: Option<usize>,
    pub pending: Option<usize>,
    pub history: Seq<usize>,
    pub cursor: usize,
}

/// The next index chosen from `c` (`manual` for a user-initiated Next),
/// where `draw` is the random value that picks among the candidates.
///
/// A prefetched crossfade pick is honoured once. Automatic advance repeats
/// the track under repeat-one. Under shuffle, Next first replays forward
/// through history that Previous stepped back over, then draws a track not
/// yet played this cycle; when the cycle is complete it stops (automatic,
/// repeat off) or starts a fresh cycle that avoids the current track.
/// Without shuffle it walks the queue in order, wrapping for a manual Next or
/// repeat-all.
pub open spec fn next_step(c: PlayerCore, manual: bool, draw: u64) -> NavStep {
    let len = c.queue@.len();
    let h = c.shuffle_history@;
    let keep = NavStep { pick: None, pending: c.pending_next, history: h, cursor: c.shuffle_cursor };
    if c.current is None || len == 0 {
        keep
    } else {
        let cur = c.current->0;
        let step = |pick: Option<usize>| NavStep { pick, pending: None, history: h, cursor: c.shuffle_cursor };
        if c.pending_next is Some && c.pending_next->0 < len {
            step(c.pending_next)
        } else if !manual && c.repeat == RepeatMode::One {
            step(Some(cur))
        } else if c.shuffle && len > 1 {
            if c.shuffle_cursor + 1 < h.len() {
                NavStep {
                    pick: Some(h[c.shuffle_cursor + 1]),
                    pending: None,
                    history: h,
                    cursor: (c.shuffle_cursor + 1) as usize,
                }
            } else {
                let pool = unplayed(h, len);
                if pool.len() > 0 {
                    let p = pool[((draw as usize) % (pool.len() as usize)) as int];
                    NavStep { pick: Some(p), pending: None, history: h.push(p), cursor: h.len() as usize }
                } else if !manual && c.repeat != RepeatMode::All {
                    step(None)
                } else {
                    let fresh = all_but(cur, len);
                    let p = fresh[((draw as usize) % (fresh.len() as usize)) as int];
                    NavStep { pick: Some(p), pending: None, history: seq![p], cursor: 0 }
                }
            }
        } else if cur + 1 < len {
            step(Some((cur + 1) as usize))
        } else if manual || c.repeat == RepeatMode::All {
            step(Some(0))
        } else {
            step(None)
        }
    }
}

/// `b` is `a` after a navigation step `s` that returned `r`.
pub open spec fn nav_applied(a: PlayerCore, b: PlayerCore, r: Option<usize>, s: NavStep) -> bool {
    &&& r == s.pick
    &&& b.pending_next == s.pending
    &&& b.shuffle_history@ == s.history
    &&& b.shuffle_cursor == s.cursor
    &&& b.queue == a.queue
    &&& b.current == a.current
    &&& same_playback(a, b)
}

/// Whether `v` holds `x`.
pub fn vec_contains(v: &Vec<usize>, x: usize) -> (r: bool)
    ensures
        r == v@.contains(x),
{
    let mut i: usize = 0;
    while i < v.len()
        invariant
            i <= v.len(),
            forall|j: int| 0 <= j < i ==> v@[j] != x,
        decreases v.len() - i,
    {
        if v[i] == x {
            assert(v@[i as int] == x);
            return true;
        }
        i = i + 1;
    }
    false
}

/// The indices below `len` that `h` does not hold, ascending.
fn unplayed_indices(h: &Vec<usize>, len: usize) -> (r: Vec<usize>)
    ensures
        r@ == unplayed(h@, len as nat),
{
    let mut pool: Vec<usize> = Vec::new();
    let mut i: usize = 0;
    while i < len
        invariant
            i <= len,
            pool@ == unplayed(h@, i as nat),
        decreases len - i,
    {
        if !vec_contains(h, i) {
            pool.push(i);
        }
        i = i + 1;
    }
    pool
}

/// The indices below `len` other than `cur`, ascending.
fn indices_except(cur: usize, len: usize) -> (r: Vec<usize>)
    ensures
        r@ == all_but(cur, len as nat),
{
    let mut out: Vec<usize> = Vec::new();
    let mut i: usize = 0;
    while i < len
        invariant
            i <= len,
            out@ == all_but(cur, i as nat),
        decreases len - i,
    {
        if i != cur {
            out.push(i);
        }
        i = i + 1;
    }
    out
}

/// Every index in `all_but(cur, n)` is below `n` and differs from `cur`, and
/// there are `n - 1` of them when `cur < n`.
pub proof fn lemma_all_but(cur: usize, n: nat)
    requires
        n <= usize::MAX,
    ensures
        forall|k: int| 0 <= k < all_but(cur, n).len() ==> all_but(cur, n)[k] < n && all_but(cur, n)[k] != cur,
        cur < n ==> all_but(cur, n).len() == n - 1,
        cur >= n ==> all_but(cur, n).len() == n,
    decreases n,
{
    if n > 0 {
        lemma_all_but(cur, (n - 1) as nat);
        let p = all_but(cur, (n - 1) as nat);
        assert forall|k: int| 0 <= k < all_but(cur, n).len() implies all_but(cur, n)[k] < n && all_but(cur, n)[k] != cur by {
            if k < p.len() {
                assert(all_but(cur, n)[k] == p[k]);
            }
        }
    }
}

/// There are at most `n` unplayed indices below `n`.
pub proof fn lemma_unplayed_len(h: Seq<usize>, n: nat)
    ensures
        unplayed(h, n).len() <= n,
    decreases n,
{
    if n > 0 {
        lemma_unplayed_len(h, (n - 1) as nat);
    }
}

/// Every index in `unplayed(h, n)` is below `n` and not in `h`.
pub proof fn lemma_unplayed_members(h: Seq<usize>, n: nat)
    requires
        n <= usize::MAX,
    ensures
        forall|k: int| 0 <= k < unplayed(h, n).len() ==> unplayed(h, n)[k] < n && !h.contains(unplayed(h, n)[k]),
    decreases n,
{
    if n > 0 {
        lemma_unplayed_members(h, (n - 1) as nat);
        let p = unplayed(h, (n - 1) as nat);
        assert forall|k: int| 0 <= k < unplayed(h, n).len() implies unplayed(h, n)[k] < n && !h.contains(
            unplayed(h, n)[k],
        ) by {
            if k < p.len() {
                assert(unplayed(h, n)[k] == p[k]);
            }
        }
    }
}

/// Decide the next index with `draw` as the random choice, advancing the
/// shuffle history.
pub fn pick_next_with(core: &mut PlayerCore, manual: bool, draw: u64) -> (r: Option<usize>)
    ensures
        nav_applied(*old(core), *final(core), r, next_step(*old(core), manual, draw)),
{
    let len = core.queue.len();
    let cur = match core.current {
        Some(c) => c,
        None => return None,
    };
    if len == 0 {
        return None;
    }
    let pending = core.pending_next;
    core.pending_next = None;
    match pending {
        Some(i) => {
            if i < len {
                return Some(i);
            }
        },
        None => {},
    }
    if !manual && core.repeat == RepeatMode::One {
        return Some(cur);
    }
    if core.shuffle && len > 1 {
        let hl = core.shuffle_history.len();
        if hl > 0 && core.shuffle_cursor < hl - 1 {
            core.shuffle_cursor = core.shuffle_cursor + 1;
            return Some(core.shuffle_history[core.shuffle_cursor]);
        }
        let pool = unplayed_indices(&core.shuffle_history, len);
        let pick = if pool.len() == 0 {
            if !manual && core.repeat != RepeatMode::All {
                return None;
            }
            core.shuffle_history.clear();
            let fresh = indices_except(cur, len);
            proof {
                lemma_all_but(cur, len as nat);
            }
            fresh[(draw as usize) % fresh.len()]
        } else {
            pool[(draw as usize) % pool.len()]
        };
        core.shuffle_history.push(pick);
        core.shuffle_cursor = core.shuffle_history.len() - 1;
        return Some(pick);
    }
    if cur < len - 1 {
        Some(cur + 1)
    } else if manual || core.repeat == RepeatMode::All {
        Some(0)
    } else {
        None
    }
}

/// Decide the next index and advance the shuffle history; a random draw
/// picks among the shuffle candidates. `manual` marks a user-initiated Next
/// (wraps at the end and overrides repeat-one).
pub fn pick_next(core: &mut PlayerCore, manual: bool) -> (r: Option<usize>)
    ensures
        exists|draw: u64| nav_applied(*old(core), *final(core), r, #[trigger] next_step(*old(core), manual, draw)),
{
    let draw = random_u64();
    pick_next_with(core, manual, draw)
}

/// The previous index chosen from `c` and the new shuffle cursor: far enough
/// into a track it restarts the track; under shuffle it steps back through
/// the playback history (restarting at its front); otherwise it walks back
/// in queue order, restarting the first track.
pub open spec fn prev_step(c: PlayerCore) -> (Option<usize>, usize) {
    match c.current {
        None => (None, c.shuffle_cursor),
        Some(cur) => if c.position_ms > RESTART_THRESHOLD_MS {
            (Some(cur), c.shuffle_cursor)
        } else if c.shuffle && c.queue@.len() > 1 {
            if c.shuffle_cursor > 0 {
                (Some(c.shuffle_history@[c.shuffle_cursor - 1]), (c.shuffle_cursor - 1) as usize)
            } else {
                (Some(cur), c.shuffle_cursor)
            }
        } else if cur > 0 {
            (Some((cur - 1) as usize), c.shuffle_cursor)
        } else {
            (Some(cur), c.shuffle_cursor)
        },
    }
}

/// Pick the previous queue index, mirroring [`pick_next`].
pub fn pick_prev(core: &mut PlayerCore) -> (r: Option<usize>)
    requires
        old(core).current is Some && old(core).position_ms <= RESTART_THRESHOLD_MS && old(core).shuffle
            && old(core).queue@.len() > 1 && old(core).shuffle_cursor > 0
            ==> old(core).shuffle_cursor <= old(core).shuffle_history@.len(),
    ensures
        r == prev_step(*old(core)).0,
        final(core).shuffle_cursor == prev_step(*old(core)).1,
        final(core).shuffle_history == old(core).shuffle_history,
        final(core).pending_next == old(core).pending_next,
        final(core).queue == old(core).queue,
        final(core).current == old(core).current,
        same_playback(*old(core), *final(core)),
{
    let cur = match core.current {
        Some(c) => c,
        None => return None,
    };
    let prev = if core.position_ms > RESTART_THRESHOLD_MS {
        cur
    } else if core.shuffle && core.queue.len() > 1 {
        if core.shuffle_cursor > 0 {
            core.shuffle_cursor = core.shuffle_cursor - 1;
            core.shuffle_history[core.shuffle_cursor]
        } else {
            cur
        }
    } else if cur > 0 {
        cur - 1
    } else {
        cur
    };
    Some(prev)
}

} // verus!
