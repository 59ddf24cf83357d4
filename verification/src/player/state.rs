//! The player's decision state.

use vstd::prelude::*;

use crate::model::{PlaybackState, QueueSnapshot, RepeatMode, Track, tracks_data};

verus! {

/// Everything the player decides from. Times are whole milliseconds.
pub struct PlayerCore {
    pub queue: Vec<Track>,
    pub current: Option<usize>,
    pub shuffle: bool,
    pub repeat: RepeatMode,
    pub state: PlaybackState,
    /// Playback position in the current track.
    pub position_ms: u64,
    /// Length of the current track (0 when unknown).
    pub duration_ms: u64,
    /// Where the queue came from (e.g. "liked", "playlist:<id>").
    pub source: Option<String>,
    /// Ordered queue indices visited in the current shuffle cycle. Doubles as
    /// the "already played" set and as the back/forward history under shuffle.
    pub shuffle_history: Vec<usize>,
    /// Position of the current track within `shuffle_history`.
    pub shuffle_cursor: usize,
    /// Bumped on every play request; stale downloads check it and bail.
    pub generation: u64,
    /// Bumped whenever the queue is replaced; stale radio fills check it.
    pub epoch: u64,
    /// Consecutive automatic-play failures.
    pub failures: u32,
    /// Crossfade overlap; 0 disables it (a hard cut between tracks).
    pub crossfade_ms: u64,
    /// Generation a crossfade has already been triggered for.
    pub crossfade_armed_for: Option<u64>,
    /// Next index drawn ahead of time by a crossfade, consumed exactly once.
    pub pending_next: Option<usize>,
}

impl Default for PlayerCore {
    fn default() -> (r: Self)
        ensures
            r.queue@.len() == 0,
            r.current is None,
            !r.shuffle,
            r.repeat == RepeatMode::Off,
            r.state == PlaybackState::Stopped,
            r.position_ms == 0,
            r.duration_ms == 0,
            r.source is None,
            r.shuffle_history@.len() == 0,
            r.shuffle_cursor == 0,
            r.generation == 0,
            r.epoch == 0,
            r.failures == 0,
            r.crossfade_ms == 0,
            r.crossfade_armed_for is None,
            r.pending_next is None,
    {
        PlayerCore {
            queue: Vec::new(),
            current: None,
            shuffle: false,
            repeat: RepeatMode::Off,
            state: PlaybackState::Stopped,
            position_ms: 0,
            duration_ms: 0,
            source: None,
            shuffle_history: Vec::new(),
            shuffle_cursor: 0,
            generation: 0,
            epoch: 0,
            failures: 0,
            crossfade_ms: 0,
            crossfade_armed_for: None,
            pending_next: None,
        }
    }
}

/// `a` and `b` agree on everything but the queue and the navigation
/// bookkeeping (current index, shuffle history and cursor, pending pick).
pub open spec fn same_playback(a: PlayerCore, b: PlayerCore) -> bool {
    &&& a.shuffle == b.shuffle
    &&& a.repeat == b.repeat
    &&& a.state == b.state
    &&& a.position_ms == b.position_ms
    &&& a.duration_ms == b.duration_ms
    &&& a.source == b.source
    &&& a.generation == b.generation
    &&& a.epoch == b.epoch
    &&& a.failures == b.failures
    &&& a.crossfade_ms == b.crossfade_ms
    &&& a.crossfade_armed_for == b.crossfade_armed_for
}

/// Some track of `q` has the id `id`.
pub open spec fn has_id(q: Seq<Track>, id: Seq<char>) -> bool {
    exists|j: int| 0 <= j < q.len() && (#[trigger] q[j]).id@ == id
}

/// The tracks of `tracks` whose id is not already in `queue`, in order.
pub open spec fn fresh_tracks(queue: Seq<Track>, tracks: Seq<Track>) -> Seq<Track> {
    tracks.filter(|t: Track| !has_id(queue, t.id@))
}

/// Whether some track of `q` has the id `id`.
pub fn queue_has_id(q: &Vec<Track>, id: &String) -> (r: bool)
    ensures
        r == has_id(q@, id@),
{
    let mut i: usize = 0;
    while i < q.len()
        invariant
            i <= q.len(),
            forall|j: int| 0 <= j < i ==> (#[trigger] q@[j]).id@ != id@,
        decreases q.len() - i,
    {
        if q[i].id == *id {
            assert(q@[i as int].id@ == id@);
            return true;
        }
        i = i + 1;
    }
    false
}

/// The snapshot of `c` that the interface shows and the session persists.
pub fn snapshot(c: &PlayerCore) -> (r: QueueSnapshot)
    ensures
        tracks_data(r.tracks@) == tracks_data(c.queue@),
        r.current == c.current,
        r.shuffle == c.shuffle,
        r.repeat == c.repeat,
        r.source == c.source,
{
    let tracks = c.queue.clone();
    proof {
        assert forall|i: int| 0 <= i < c.queue@.len() implies tracks@[i]@ == c.queue@[i]@ by {
            assert(cloned::<Track>(c.queue@[i], tracks@[i]));
        }
        assert(tracks_data(tracks@) =~= tracks_data(c.queue@));
    }
    QueueSnapshot {
        tracks,
        current: c.current,
        shuffle: c.shuffle,
        repeat: c.repeat,
        source: c.source.clone(),
    }
}

/// The track under the cursor, if the current index points into the queue.
pub fn current_track(c: &PlayerCore) -> (r: Option<Track>)
    ensures
        match c.current {
            Some(i) if i < c.queue@.len() => r is Some && r->0@ == c.queue@[i as int]@,
            _ => r is None,
        },
{
    match c.current {
        Some(i) => {
            if i < c.queue.len() {
                Some(c.queue[i].clone())
            } else {
                None
            }
        },
        None => None,
    }
}

} // verus!
