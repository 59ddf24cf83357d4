//! What the player promises across calls: Next and Previous walk the queue
//! in order without shuffle; shuffle plays every track once per cycle, can
//! draw any unplayed track, and never opens a new cycle on the playing one;
//! Previous retraces the real play order and Next replays it, and a
//! prefetched pick is used exactly once; the repeat control cycles through
//! all three modes; failures skip until a queue's worth have failed; adding the same tracks twice
//! changes nothing and queue edits keep the playing track; a download
//! overtaken by a newer request is ignored; a crossfade arms once per track
//! and commits only while still current; a saved session restores.

use vstd::prelude::*;

use crate::model::{PlaybackState, RepeatMode, repeat_after};
use super::nav::{RESTART_THRESHOLD_MS, all_but, lemma_all_but, lemma_unplayed_len, lemma_unplayed_members, next_step, prev_step, unplayed};
use super::playback::{CrossfadeOutcome, after_commit, failure_budget, began, commit_outcome, crossfade_pinned, in_overlap_window, should_arm, started};
use super::queue::{AddOutcome, append_result};
use super::state::{PlayerCore, fresh_tracks, has_id};
use crate::model::{QueueSnapshot, Track, tracks_data};

verus! {

/// Every entry of `h` is a queue position below `n`.
pub open spec fn within(h: Seq<usize>, n: nat) -> bool {
    forall|k: int| 0 <= k < h.len() ==> #[trigger] h[k] < n
}

/// How many entries of `h` are below `m`.
pub open spec fn count_below(h: Seq<usize>, m: nat) -> nat
    decreases h.len(),
{
    if h.len() == 0 {
        0
    } else {
        count_below(h.drop_last(), m) + if (h.last() as nat) < m { 1nat } else { 0nat }
    }
}

proof fn lemma_count_below_step(h: Seq<usize>, m: nat)
    requires
        h.no_duplicates(),
        m <= usize::MAX,
    ensures
        count_below(h, m + 1) == count_below(h, m) + if h.contains(m as usize) { 1nat } else { 0nat },
    decreases h.len(),
{
    if h.len() > 0 {
        let d = h.drop_last();
        let x = h.last();
        assert(d.no_duplicates()) by {
            assert forall|i: int, j: int| 0 <= i < d.len() && 0 <= j < d.len() && i != j implies d[i] != d[j] by {
                assert(d[i] == h[i] && d[j] == h[j]);
            }
        }
        lemma_count_below_step(d, m);
        assert(!d.contains(x)) by {
            if d.contains(x) {
                let i = choose|i: int| 0 <= i < d.len() && d[i] == x;
                assert(h[i] == h[h.len() - 1]);
            }
        }
        assert(h.contains(m as usize) == (d.contains(m as usize) || x == m as usize)) by {
            if h.contains(m as usize) {
                let i = choose|i: int| 0 <= i < h.len() && h[i] == m as usize;
                if i < h.len() - 1 {
                    assert(d[i] == m as usize);
                }
            }
            if d.contains(m as usize) {
                let i = choose|i: int| 0 <= i < d.len() && d[i] == m as usize;
                assert(h[i] == m as usize);
            }
        }
    }
}

proof fn lemma_count_below_all(h: Seq<usize>, n: nat)
    requires
        within(h, n),
    ensures
        count_below(h, n) == h.len(),
    decreases h.len(),
{
    if h.len() > 0 {
        let d = h.drop_last();
        assert(within(d, n)) by {
            assert forall|k: int| 0 <= k < d.len() implies #[trigger] d[k] < n by {
                assert(d[k] == h[k]);
            }
        }
        lemma_count_below_all(d, n);
        assert(h[h.len() - 1] < n);
    }
}

proof fn lemma_unplayed_plus_count(h: Seq<usize>, n: nat)
    requires
        h.no_duplicates(),
        n <= usize::MAX,
    ensures
        unplayed(h, n).len() + count_below(h, n) == n,
    decreases n,
{
    if n > 0 {
        lemma_unplayed_plus_count(h, (n - 1) as nat);
        lemma_count_below_step(h, (n - 1) as nat);
    } else {
        lemma_count_zero(h);
    }
}

proof fn lemma_count_zero(h: Seq<usize>)
    ensures
        count_below(h, 0) == 0,
    decreases h.len(),
{
    if h.len() > 0 {
        lemma_count_zero(h.drop_last());
    }
}

/// The shuffle pool shrinks by exactly one per played track: with a
/// duplicate-free history of queue positions, `n - |h|` tracks remain
/// unplayed. In particular the pool is empty exactly when every track has
/// played this cycle.
pub proof fn lemma_unplayed_count(h: Seq<usize>, n: nat)
    requires
        h.no_duplicates(),
        within(h, n),
        n <= usize::MAX,
    ensures
        unplayed(h, n).len() == n - h.len(),
        h.len() <= n,
        unplayed(h, n).len() == 0 <==> forall|i: usize| i < n ==> h.contains(i),
{
    lemma_unplayed_plus_count(h, n);
    lemma_count_below_all(h, n);
    lemma_unplayed_members(h, n);
    lemma_unplayed_complete(h, n);
    let u = unplayed(h, n);
    if u.len() == 0 {
        assert forall|i: usize| i < n implies h.contains(i) by {
            if !h.contains(i) {
                assert(u.contains(i));
            }
        }
    }
    if forall|i: usize| i < n ==> h.contains(i) {
        if u.len() > 0 {
            assert(u[0] < n && !h.contains(u[0]));
        }
    }
}

/// Every index below `n` missing from `h` is in `unplayed(h, n)`.
proof fn lemma_unplayed_complete(h: Seq<usize>, n: nat)
    requires
        n <= usize::MAX,
    ensures
        forall|i: usize| i < n && !h.contains(i) ==> unplayed(h, n).contains(i),
    decreases n,
{
    if n > 0 {
        lemma_unplayed_complete(h, (n - 1) as nat);
        let p = unplayed(h, (n - 1) as nat);
        assert forall|i: usize| i < n && !h.contains(i) implies unplayed(h, n).contains(i) by {
            if i < n - 1 {
                let k = choose|k: int| 0 <= k < p.len() && p[k] == i;
                assert(unplayed(h, n)[k] == i);
            } else {
                assert(unplayed(h, n) == p.push(i));
                assert(unplayed(h, n)[p.len() as int] == i);
            }
        }
    }
}

/// Navigation keeps the shuffle history a duplicate-free list of queue
/// positions and only ever picks a queue position, as long as the current
/// index points into the queue: no track repeats within a shuffle cycle.
pub proof fn lemma_next_keeps_history_valid(c: PlayerCore, manual: bool, draw: u64)
    requires
        c.shuffle_history@.no_duplicates(),
        within(c.shuffle_history@, c.queue@.len()),
        c.current is Some ==> c.current->0 < c.queue@.len(),
    ensures
        ({
            let s = next_step(c, manual, draw);
            &&& s.history.no_duplicates()
            &&& within(s.history, c.queue@.len())
            &&& s.pick is Some ==> s.pick->0 < c.queue@.len()
            &&& (s.pick is Some && s.history.len() == c.shuffle_history@.len() + 1)
                ==> !c.shuffle_history@.contains(s.pick->0)
        }),
{
    let len = c.queue@.len();
    let h = c.shuffle_history@;
    assert(len == c.queue.len());
    lemma_unplayed_members(h, len);
    lemma_unplayed_len(h, len);
    if let Some(cur) = c.current {
        lemma_all_but(cur, len);
    }
    let s = next_step(c, manual, draw);
    if s.history.len() == h.len() + 1 {
        let p = s.pick->0;
        assert(!h.contains(p)) by {
            let pool = unplayed(h, len);
            if h.len() > 0 && c.shuffle && len > 1 && pool.len() > 0 && c.current is Some
                && !(c.pending_next is Some && c.pending_next->0 < len)
                && !(!manual && c.repeat == RepeatMode::One) && !(c.shuffle_cursor + 1 < h.len()) {
                let k = ((draw as usize) % (pool.len() as usize)) as int;
                assert(0 <= k < pool.len());
                assert(p == pool[k]);
                assert(!h.contains(pool[k]));
            }
        }
        assert(s.history.no_duplicates()) by {
            assert forall|i: int, j: int| 0 <= i < s.history.len() && 0 <= j < s.history.len() && i != j
                implies s.history[i] != s.history[j] by {
                if i == h.len() as int {
                    assert(s.history[j] == h[j]);
                } else if j == h.len() as int {
                    assert(s.history[i] == h[i]);
                } else {
                    assert(s.history[i] == h[i] && s.history[j] == h[j]);
                }
            }
        }
    }
}

/// A finished shuffle cycle ends automatic playback: once every track of the
/// queue is in the (duplicate-free) history and the cursor is at its front,
/// an automatic advance with repeat off returns nothing, while before that
/// point it always draws a track not yet played.
pub proof fn lemma_shuffle_cycle_covers_queue(c: PlayerCore, draw: u64)
    requires
        c.current is Some && c.current->0 < c.queue@.len(),
        c.shuffle,
        c.queue@.len() > 1,
        c.repeat == RepeatMode::Off,
        c.pending_next is None,
        c.shuffle_cursor + 1 >= c.shuffle_history@.len(),
        c.shuffle_history@.no_duplicates(),
        within(c.shuffle_history@, c.queue@.len()),
    ensures
        ({
            let s = next_step(c, false, draw);
            let h = c.shuffle_history@;
            &&& h.len() == c.queue@.len() ==> s.pick is None
            &&& h.len() < c.queue@.len() ==> (s.pick is Some && !h.contains(s.pick->0) && s.history == h.push(
                s.pick->0,
            ))
        }),
{
    assert(c.queue@.len() == c.queue.len());
    lemma_unplayed_count(c.shuffle_history@, c.queue@.len());
    lemma_unplayed_members(c.shuffle_history@, c.queue@.len());
}

/// Previous then Next retraces the actual play order under shuffle: stepping
/// back returns the track played before the current one, and a manual Next
/// from there returns the track the user came from, without drawing anew.
pub proof fn lemma_previous_then_next_replays(c: PlayerCore, draw: u64)
    requires
        c.current is Some,
        c.shuffle,
        c.queue@.len() > 1,
        c.position_ms <= RESTART_THRESHOLD_MS,
        0 < c.shuffle_cursor < c.shuffle_history@.len(),
        c.pending_next is None,
    ensures
        ({
            let (back, cursor) = prev_step(c);
            let c2 = PlayerCore { current: back, shuffle_cursor: cursor, position_ms: 0, ..c };
            let s = next_step(c2, true, draw);
            &&& back == Some(c.shuffle_history@[c.shuffle_cursor - 1])
            &&& s.pick == Some(c.shuffle_history@[c.shuffle_cursor as int])
            &&& s.history == c.shuffle_history@
            &&& s.cursor == c.shuffle_cursor
        }),
{
}

/// Without shuffle, Next walks the queue in order: the track right after the
/// current one; past the last track the first one for a manual Next or under
/// repeat-all, and nothing for an automatic advance otherwise. An automatic
/// advance under repeat-one replays the current track. The shuffle history is
/// left alone.
pub proof fn lemma_next_in_queue_order(c: PlayerCore, manual: bool, draw: u64)
    requires
        c.current is Some && c.current->0 < c.queue@.len(),
        !c.shuffle || c.queue@.len() == 1,
        !(c.pending_next is Some && c.pending_next->0 < c.queue@.len()),
    ensures
        ({
            let cur = c.current->0;
            let len = c.queue@.len();
            let s = next_step(c, manual, draw);
            &&& s.pick == if !manual && c.repeat == RepeatMode::One {
                Some(cur)
            } else if cur + 1 < len {
                Some((cur + 1) as usize)
            } else if manual || c.repeat == RepeatMode::All {
                Some(0usize)
            } else {
                None
            }
            &&& s.history == c.shuffle_history@
            &&& s.cursor == c.shuffle_cursor
            &&& s.pending is None
        }),
{
}

/// A new shuffle cycle never starts on the track that is playing: once every
/// track of the queue has been played this cycle, a manual Next (or an
/// automatic one under repeat-all) picks another track of the queue and
/// starts the new cycle's history with it.
pub proof fn lemma_fresh_cycle_avoids_current(c: PlayerCore, manual: bool, draw: u64)
    requires
        c.current is Some && c.current->0 < c.queue@.len(),
        c.shuffle,
        c.queue@.len() > 1,
        !(c.pending_next is Some && c.pending_next->0 < c.queue@.len()),
        c.shuffle_cursor + 1 >= c.shuffle_history@.len(),
        forall|i: usize| i < c.queue@.len() ==> c.shuffle_history@.contains(i),
        manual || c.repeat == RepeatMode::All,
    ensures
        ({
            let s = next_step(c, manual, draw);
            &&& s.pick is Some
            &&& s.pick->0 != c.current->0
            &&& s.pick->0 < c.queue@.len()
            &&& s.history == seq![s.pick->0]
            &&& s.cursor == 0
        }),
{
    let len = c.queue@.len();
    let h = c.shuffle_history@;
    assert(len == c.queue.len());
    lemma_unplayed_members(h, len);
    let pool = unplayed(h, len);
    if pool.len() > 0 {
        assert(pool[0] < len && !h.contains(pool[0]));
    }
    lemma_all_but(c.current->0, len);
    let fresh = all_but(c.current->0, len);
    let k = ((draw as usize) % (fresh.len() as usize)) as int;
    assert(0 <= k < fresh.len());
}

/// An automatic advance under repeat-one replays the current track, with or
/// without shuffle, unless a crossfade already pinned the next pick.
pub proof fn lemma_repeat_one_replays(c: PlayerCore, draw: u64)
    requires
        c.current is Some && c.current->0 < c.queue@.len(),
        c.repeat == RepeatMode::One,
        !(c.pending_next is Some && c.pending_next->0 < c.queue@.len()),
    ensures
        next_step(c, false, draw).pick == c.current,
{
}

/// Under shuffle, after Previous has stepped back through the history, Next
/// first walks forward through it again: it returns the track recorded
/// right after the cursor and moves the cursor there, drawing nothing.
pub proof fn lemma_next_replays_forward(c: PlayerCore, manual: bool, draw: u64)
    requires
        c.current is Some && c.current->0 < c.queue@.len(),
        c.shuffle,
        c.queue@.len() > 1,
        !(c.pending_next is Some && c.pending_next->0 < c.queue@.len()),
        manual || c.repeat != RepeatMode::One,
        c.shuffle_cursor + 1 < c.shuffle_history@.len(),
    ensures
        ({
            let s = next_step(c, manual, draw);
            &&& s.pick == Some(c.shuffle_history@[c.shuffle_cursor + 1])
            &&& s.cursor == c.shuffle_cursor + 1
            &&& s.history == c.shuffle_history@
        }),
{
    assert(c.shuffle_history@.len() == c.shuffle_history.len());
}

/// Any track not yet played in the current shuffle cycle can come next: for
/// each of them some draw picks it, and it is appended to the history.
pub proof fn lemma_every_unplayed_track_can_come_next(c: PlayerCore, manual: bool, i: usize)
    requires
        c.current is Some && c.current->0 < c.queue@.len(),
        c.shuffle,
        c.queue@.len() > 1,
        !(c.pending_next is Some && c.pending_next->0 < c.queue@.len()),
        manual || c.repeat != RepeatMode::One,
        c.shuffle_cursor + 1 >= c.shuffle_history@.len(),
        i < c.queue@.len(),
        !c.shuffle_history@.contains(i),
    ensures
        exists|draw: u64|
            #[trigger] next_step(c, manual, draw).pick == Some(i) && next_step(c, manual, draw).history
                == c.shuffle_history@.push(i),
{
    let len = c.queue@.len();
    let h = c.shuffle_history@;
    assert(len == c.queue.len());
    lemma_unplayed_complete(h, len);
    lemma_unplayed_len(h, len);
    let pool = unplayed(h, len);
    assert(pool.contains(i));
    let k = choose|k: int| 0 <= k < pool.len() && pool[k] == i;
    let draw = k as u64;
    assert((draw as usize) % (pool.len() as usize) == k) by (nonlinear_arith)
        requires
            0 <= k < pool.len(),
            draw == k,
            pool.len() <= usize::MAX,
    ;
    assert(next_step(c, manual, draw).pick == Some(i));
}

/// When a new shuffle cycle starts, any track other than the current one can
/// open it: for each of them some draw picks it.
pub proof fn lemma_every_other_track_can_open_a_cycle(c: PlayerCore, manual: bool, i: usize)
    requires
        c.current is Some && c.current->0 < c.queue@.len(),
        c.shuffle,
        c.queue@.len() > 1,
        !(c.pending_next is Some && c.pending_next->0 < c.queue@.len()),
        c.shuffle_cursor + 1 >= c.shuffle_history@.len(),
        forall|j: usize| j < c.queue@.len() ==> c.shuffle_history@.contains(j),
        manual || c.repeat == RepeatMode::All,
        i < c.queue@.len(),
        i != c.current->0,
    ensures
        exists|draw: u64| #[trigger] next_step(c, manual, draw).pick == Some(i),
{
    let len = c.queue@.len();
    let h = c.shuffle_history@;
    let cur = c.current->0;
    assert(len == c.queue.len());
    lemma_unplayed_members(h, len);
    let pool = unplayed(h, len);
    if pool.len() > 0 {
        assert(pool[0] < len && !h.contains(pool[0]));
    }
    lemma_all_but(cur, len);
    lemma_all_but_complete(cur, len, i);
    let fresh = all_but(cur, len);
    let k = choose|k: int| 0 <= k < fresh.len() && fresh[k] == i;
    let draw = k as u64;
    assert((draw as usize) % (fresh.len() as usize) == k) by (nonlinear_arith)
        requires
            0 <= k < fresh.len(),
            draw == k,
            fresh.len() <= usize::MAX,
    ;
    assert(next_step(c, manual, draw).pick == Some(i));
}

/// Every index below `n` other than `cur` is in `all_but(cur, n)`.
proof fn lemma_all_but_complete(cur: usize, n: nat, i: usize)
    requires
        n <= usize::MAX,
        i < n,
        i != cur,
    ensures
        exists|k: int| 0 <= k < all_but(cur, n).len() && all_but(cur, n)[k] == i,
    decreases n,
{
    let p = all_but(cur, (n - 1) as nat);
    if i < n - 1 {
        lemma_all_but_complete(cur, (n - 1) as nat, i);
        let k = choose|k: int| 0 <= k < p.len() && p[k] == i;
        if (n - 1) as usize != cur {
            assert(all_but(cur, n) == p.push((n - 1) as usize));
            assert(all_but(cur, n)[k] == p.push((n - 1) as usize)[k]);
        } else {
            assert(all_but(cur, n) == p);
        }
        assert(all_but(cur, n)[k] == i);
    } else {
        assert(all_but(cur, n) == p.push(i));
        assert(all_but(cur, n)[p.len() as int] == i);
    }
}

/// Early in a track and without shuffle, Previous goes to the queue
/// neighbour right before the current track; at the first track, or more
/// than [`RESTART_THRESHOLD_MS`] into any track, it restarts the current one.
/// The shuffle cursor is left alone.
pub proof fn lemma_previous_in_queue_order(c: PlayerCore)
    requires
        c.current is Some,
        !c.shuffle || c.queue@.len() <= 1 || c.position_ms > RESTART_THRESHOLD_MS,
    ensures
        ({
            let cur = c.current->0;
            &&& prev_step(c).0 == Some(if cur > 0 && c.position_ms <= RESTART_THRESHOLD_MS {
                (cur - 1) as usize
            } else {
                cur
            })
            &&& prev_step(c).1 == c.shuffle_cursor
        }),
{
}

/// Early in a track under shuffle, Previous steps one place back in the play
/// history and returns the track played there; at the front of the history
/// it restarts the current track. Nothing is ever Previous without a
/// current track.
pub proof fn lemma_previous_under_shuffle(c: PlayerCore)
    requires
        c.shuffle,
        c.queue@.len() > 1,
        c.position_ms <= RESTART_THRESHOLD_MS,
        c.shuffle_cursor <= c.shuffle_history@.len(),
    ensures
        c.current is None ==> prev_step(c).0 is None,
        c.current is Some && c.shuffle_cursor > 0 ==> prev_step(c).0 == Some(
            c.shuffle_history@[c.shuffle_cursor - 1],
        ) && prev_step(c).1 == c.shuffle_cursor - 1,
        c.current is Some && c.shuffle_cursor == 0 ==> prev_step(c).0 == c.current && prev_step(c).1 == 0,
{
}

/// The repeat control cycles through all three modes, starting from Off
/// with All: every press changes the mode, two presses never come back,
/// and three presses always do.
pub proof fn lemma_repeat_cycles_all_modes(m: RepeatMode)
    ensures
        repeat_after(m) != m,
        repeat_after(repeat_after(m)) != m,
        repeat_after(repeat_after(repeat_after(m))) == m,
        repeat_after(RepeatMode::Off) == RepeatMode::All,
{
}

/// A failure of the current request skips on exactly while the consecutive
/// failures, this one included, stay below the queue length, and stops once
/// they reach it (so a single-track queue stops at its first failure).
pub proof fn lemma_failures_skip_below_queue_length(len: nat, failures: u32)
    requires
        len <= u32::MAX,
        failures < u32::MAX,
    ensures
        (failures + 1 < failure_budget(len)) <==> (failures + 1 < len),
{
}

/// A user-initiated Next always lands on a track when something is playing
/// from a non-empty queue.
pub proof fn lemma_manual_next_always_plays(c: PlayerCore, draw: u64)
    requires
        c.current is Some,
        c.queue@.len() > 0,
    ensures
        next_step(c, true, draw).pick is Some,
{
    let len = c.queue@.len();
    assert(len == c.queue.len());
    lemma_all_but(c.current->0, len);
}

/// A pick drawn ahead of time by a crossfade is honoured once: it is returned
/// and cleared, so the following Next decides afresh.
pub proof fn lemma_pending_pick_used_once(c: PlayerCore, manual: bool, draw: u64)
    requires
        c.current is Some,
        c.pending_next is Some && c.pending_next->0 < c.queue@.len(),
    ensures
        next_step(c, manual, draw).pick == c.pending_next,
        next_step(c, manual, draw).pending is None,
{
}

/// Adding a list of tracks is idempotent: once it has been appended, adding
/// the same list again adds nothing.
pub proof fn lemma_append_idempotent(q: Seq<Track>, tracks: Seq<Track>)
    ensures
        fresh_tracks(q + fresh_tracks(q, tracks), tracks).len() == 0,
{
    let f = fresh_tracks(q, tracks);
    let q2 = q + f;
    let pred = |t: Track| !has_id(q2, t.id@);
    let pred1 = |t: Track| !has_id(q, t.id@);
    let second = tracks.filter(pred);
    if second.len() > 0 {
        tracks.lemma_filter_pred(pred, 0);
        assert(second.contains(second[0]));
        tracks.lemma_filter_contains_rev(pred, second[0]);
        let t = second[0];
        let i = choose|i: int| 0 <= i < tracks.len() && tracks[i] == t;
        if has_id(q, t.id@) {
            let j = choose|j: int| 0 <= j < q.len() && (#[trigger] q[j]).id@ == t.id@;
            assert(q2[j] == q[j]);
        } else {
            tracks.lemma_filter_contains(pred1, i);
            let k = choose|k: int| 0 <= k < f.len() && f[k] == t;
            assert(q2[q.len() + k] == t);
        }
    }
}

/// Once `tracks` has been added, every one of its ids is in the queue.
proof fn lemma_added_ids_present(q: Seq<Track>, tracks: Seq<Track>)
    ensures
        forall|i: int| 0 <= i < tracks.len() ==> has_id(q + fresh_tracks(q, tracks), #[trigger] tracks[i].id@),
{
    let f = fresh_tracks(q, tracks);
    let q2 = q + f;
    let pred = |t: Track| !has_id(q, t.id@);
    assert forall|i: int| 0 <= i < tracks.len() implies has_id(q2, #[trigger] tracks[i].id@) by {
        let t = tracks[i];
        if has_id(q, t.id@) {
            let j = choose|j: int| 0 <= j < q.len() && (#[trigger] q[j]).id@ == t.id@;
            assert(q2[j] == q[j]);
        } else {
            tracks.lemma_filter_contains(pred, i);
            let k = choose|k: int| 0 <= k < f.len() && f[k] == t;
            assert(q2[q.len() + k] == t);
        }
    }
}

/// A list whose ids are all queued already adds nothing.
proof fn lemma_nothing_fresh(q: Seq<Track>, again: Seq<Track>)
    requires
        forall|i: int| 0 <= i < again.len() ==> has_id(q, #[trigger] again[i].id@),
    ensures
        fresh_tracks(q, again).len() == 0,
{
    let pred = |t: Track| !has_id(q, t.id@);
    let f = again.filter(pred);
    if f.len() > 0 {
        again.lemma_filter_pred(pred, 0);
        assert(f.contains(f[0]));
        again.lemma_filter_contains_rev(pred, f[0]);
        let i = choose|i: int| 0 <= i < again.len() && again[i] == f[0];
        assert(has_id(q, again[i].id@));
    }
}

/// Adding tracks again is harmless: after `tracks` has been added, adding a
/// list whose every id was in `tracks` (the same list, or a copy of it)
/// leaves the player exactly as it is and starts nothing. The first add kept
/// the queue it found as a prefix and the current track where it was.
pub proof fn lemma_adding_twice_changes_nothing(
    c0: PlayerCore,
    tracks: Seq<Track>,
    c1: PlayerCore,
    r1: AddOutcome,
    again: Seq<Track>,
    c2: PlayerCore,
    r2: AddOutcome,
)
    requires
        append_result(c0, tracks, c1, r1),
        append_result(c1, again, c2, r2),
        forall|i: int| 0 <= i < again.len() ==> exists|j: int| 0 <= j < tracks.len() && #[trigger] again[i].id@ == (
        #[trigger] tracks[j]).id@,
    ensures
        c1.queue@.take(c0.queue@.len() as int) == c0.queue@,
        c1.current == c0.current,
        c2 == c1,
        r2 == AddOutcome::EmitOnly,
{
    lemma_added_ids_present(c0.queue@, tracks);
    assert forall|i: int| 0 <= i < again.len() implies has_id(c1.queue@, #[trigger] again[i].id@) by {
        let j = choose|j: int| 0 <= j < tracks.len() && #[trigger] again[i].id@ == (#[trigger] tracks[j]).id@;
        assert(has_id(c1.queue@, tracks[j].id@));
    }
    lemma_nothing_fresh(c1.queue@, again);
    assert(c1.queue@.take(c0.queue@.len() as int) =~= c0.queue@);
}

/// Appending the same list twice: the second append leaves the player as
/// the first one left it, and starts nothing.
pub proof fn lemma_append_same_list_twice(
    c0: PlayerCore,
    tracks: Seq<Track>,
    c1: PlayerCore,
    r1: AddOutcome,
    c2: PlayerCore,
    r2: AddOutcome,
)
    requires
        append_result(c0, tracks, c1, r1),
        append_result(c1, tracks, c2, r2),
    ensures
        c2 == c1,
        r2 == AddOutcome::EmitOnly,
{
    assert forall|i: int| 0 <= i < tracks.len() implies exists|j: int|
        0 <= j < tracks.len() && #[trigger] tracks[i].id@ == (#[trigger] tracks[j]).id@ by {
        assert(tracks[i].id@ == tracks[i].id@);
    }
    lemma_adding_twice_changes_nothing(c0, tracks, c1, r1, tracks, c2, r2);
}

/// Removing any other track keeps the playing track under the cursor: its
/// index shifts down by one exactly when the removed track was before it.
pub proof fn lemma_remove_keeps_playing_track(q: Seq<Track>, index: int, cur: int)
    requires
        0 <= index < q.len(),
        0 <= cur < q.len(),
        index != cur,
    ensures
        q.remove(index)[if index < cur { cur - 1 } else { cur }] == q[cur],
{
}

/// Inserting after the current track keeps the playing track at its index.
pub proof fn lemma_insert_next_keeps_playing_track(q: Seq<Track>, new: Seq<Track>, cur: int)
    requires
        0 <= cur < q.len(),
    ensures
        (q.take(cur + 1) + new + q.skip(cur + 1))[cur] == q[cur],
        (q.take(cur + 1) + new + q.skip(cur + 1))[cur + 1 + new.len()] == q[cur + 1] || cur + 1 == q.len(),
{
}

/// A crossfade arms only near the end of a known-length track that is
/// playing with crossfade enabled and repeat-one off, once per track and not
/// while a pick is already prefetched; under those conditions it arms as
/// soon as the remaining time is within the overlap.
pub proof fn lemma_crossfade_arms_near_the_end(c: PlayerCore, position_ms: u64)
    ensures
        should_arm(c, position_ms) ==> {
            &&& c.state == PlaybackState::Playing
            &&& c.crossfade_ms > 0
            &&& c.repeat != RepeatMode::One
            &&& c.duration_ms > 0
            &&& c.crossfade_armed_for != Some(c.generation)
            &&& c.pending_next is None
            &&& position_ms + c.crossfade_ms >= c.duration_ms
        },
        (c.state == PlaybackState::Playing && c.crossfade_ms > 0 && c.repeat != RepeatMode::One && c.duration_ms > 0
            && c.crossfade_armed_for != Some(c.generation) && c.pending_next is None && position_ms + c.crossfade_ms
            >= c.duration_ms) ==> should_arm(c, position_ms),
{
}

/// A crossfade may commit while the remaining time is within the overlap,
/// or when the track's length is unknown.
pub proof fn lemma_overlap_window_is_the_tail(c: PlayerCore)
    ensures
        in_overlap_window(c) <==> (c.duration_ms == 0 || c.position_ms + c.crossfade_ms >= c.duration_ms),
{
}

/// A crossfade is armed at most once per track: once a position report has
/// armed it for the current generation, no later report for that track arms
/// it again.
pub proof fn lemma_crossfade_arms_once(c: PlayerCore, armed_at: u64, later: u64)
    requires
        should_arm(c, armed_at),
    ensures
        !should_arm(PlayerCore { crossfade_armed_for: Some(c.generation), position_ms: armed_at, ..c }, later),
{
}

/// A download overtaken by a newer play request is ignored when it lands:
/// after requests for `first` and then `second`, the first request's fetch
/// changes nothing if it succeeds, and is answered as stale if it fails (its
/// generation is no longer the current one). The second request's fetch
/// still starts its track.
pub proof fn lemma_stale_fetch_ignored(c: PlayerCore, first: usize, second: usize, fetched_ms: u64)
    requires
        first < c.queue@.len(),
        second < c.queue@.len(),
        c.generation < u64::MAX - 1,
    ensures
        ({
            let c1 = began(c, first);
            let c2 = began(c1, second);
            &&& started(c2, c1.generation, fetched_ms) == c2
            &&& c2.generation != c1.generation
            &&& started(c2, c2.generation, fetched_ms).state == PlaybackState::Playing
            &&& started(c2, c2.generation, fetched_ms).current == Some(second)
        }),
{
}

/// A crossfade commits only while it is still current. Once the next track
/// `n` is pinned at generation `g`, the commit for `n` at `g` starts `n`
/// (Playing from the start, generation `g + 1`, pick consumed) exactly when
/// playback is still running inside the overlap window, and otherwise
/// changes nothing; on a player that has since moved to another generation
/// (any newer play request) it is stale and changes nothing.
pub proof fn lemma_crossfade_commits_only_while_current(
    c0: PlayerCore,
    draw: u64,
    c1: PlayerCore,
    r: Option<(usize, u64, u64)>,
    fetched_ms: u64,
    track_secs: Option<u32>,
    later: PlayerCore,
)
    requires
        crossfade_pinned(c0, draw, c1, r),
        r is Some,
        c0.generation < u64::MAX,
    ensures
        ({
            let (n, g, _) = r->0;
            let live = c0.state == PlaybackState::Playing && in_overlap_window(c0);
            let out = commit_outcome(c1, n, g, fetched_ms, track_secs);
            let c2 = after_commit(c1, n, g, fetched_ms, track_secs);
            &&& (out is Committed) == live
            &&& live ==> c2.current == Some(n) && c2.state == PlaybackState::Playing && c2.generation == g + 1
                && c2.pending_next is None && c2.position_ms == 0 && c2.queue == c0.queue
            &&& !live ==> out == CrossfadeOutcome::Deferred && c2 == c1
            &&& later.generation != g ==> commit_outcome(later, n, g, fetched_ms, track_secs)
                == CrossfadeOutcome::Stale && after_commit(later, n, g, fetched_ms, track_secs) == later
        }),
{
    assert(in_overlap_window(c1) == in_overlap_window(c0));
}

/// A session survives a restart: restoring the snapshot taken of a player
/// gives back its queue, current track, shuffle and repeat modes and source
/// (the current index is kept when it points into the queue).
pub proof fn lemma_session_round_trip(c: PlayerCore, snap: QueueSnapshot, restored: PlayerCore)
    requires
        // `snap` is what `snapshot(&c)` returns.
        tracks_data(snap.tracks@) == tracks_data(c.queue@),
        snap.current == c.current,
        snap.shuffle == c.shuffle,
        snap.repeat == c.repeat,
        snap.source == c.source,
        // `restored` is what `restore_session(snap)` returns.
        restored.queue@ == snap.tracks@,
        restored.current == match snap.current {
            Some(i) => if i < snap.tracks@.len() { Some(i) } else { None },
            None => None,
        },
        restored.shuffle == snap.shuffle,
        restored.repeat == snap.repeat,
        restored.source == snap.source,
    ensures
        tracks_data(restored.queue@) == tracks_data(c.queue@),
        restored.current == match c.current {
            Some(i) => if i < c.queue@.len() { Some(i) } else { None },
            None => None,
        },
        restored.shuffle == c.shuffle,
        restored.repeat == c.repeat,
        restored.source == c.source,
{
    assert(snap.tracks@.len() == tracks_data(snap.tracks@).len());
    assert(c.queue@.len() == tracks_data(c.queue@).len());
}

} // verus!
