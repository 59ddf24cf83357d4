//! Transitions driven by playback: starting a track, the result of its
//! download, transport controls, crossfades and position/duration ticks.

use vstd::prelude::*;

use crate::model::{PlaybackState, QueueSnapshot, RepeatMode, Track, repeat_after};
use crate::random::random_u64;
use super::nav::{next_step, pick_next_with};
use super::state::{PlayerCore, fresh_tracks, same_playback};
use super::queue::dedupe_new;

verus! {

/// Milliseconds in a track whose length is `secs` seconds (0 when unknown).
pub open spec fn length_ms(secs: Option<u32>) -> u64 {
    match secs {
        Some(s) => (s * 1000) as u64,
        None => 0,
    }
}

fn duration_ms_of(secs: Option<u32>) -> (r: u64)
    ensures
        r == length_ms(secs),
{
    match secs {
        Some(s) => (s as u64) * 1000,
        None => 0,
    }
}

/// `b` differs from `a` at most in the fields the transport touches: state,
/// position, generation.
pub open spec fn same_except_transport(a: PlayerCore, b: PlayerCore) -> bool {
    &&& b.queue == a.queue
    &&& b.current == a.current
    &&& b.shuffle == a.shuffle
    &&& b.repeat == a.repeat
    &&& b.duration_ms == a.duration_ms
    &&& b.source == a.source
    &&& b.shuffle_history == a.shuffle_history
    &&& b.shuffle_cursor == a.shuffle_cursor
    &&& b.epoch == a.epoch
    &&& b.failures == a.failures
    &&& b.crossfade_ms == a.crossfade_ms
    &&& b.crossfade_armed_for == a.crossfade_armed_for
    &&& b.pending_next == a.pending_next
}

/// Prepare a direct jump to `index` (clicking a track, starting a collection,
/// resuming a stopped track): a fresh start gets a full retry budget and, under
/// shuffle, anchors a new history on the chosen track. Returns false, changing
/// nothing, when `index` is past the end of the queue.
pub fn prepare_jump(core: &mut PlayerCore, index: usize) -> (r: bool)
    ensures
        index >= old(core).queue@.len() ==> !r && *final(core) == *old(core),
        index < old(core).queue@.len() ==> {
            &&& r
            &&& final(core).failures == 0
            &&& if old(core).shuffle {
                final(core).shuffle_history@ == seq![index] && final(core).shuffle_cursor == 0
            } else {
                final(core).shuffle_history == old(core).shuffle_history
                    && final(core).shuffle_cursor == old(core).shuffle_cursor
            }
            &&& final(core).queue == old(core).queue
            &&& final(core).current == old(core).current
            &&& final(core).pending_next == old(core).pending_next
            &&& final(core).shuffle == old(core).shuffle
            &&& final(core).repeat == old(core).repeat
            &&& final(core).state == old(core).state
            &&& final(core).position_ms == old(core).position_ms
            &&& final(core).duration_ms == old(core).duration_ms
            &&& final(core).source == old(core).source
            &&& final(core).generation == old(core).generation
            &&& final(core).epoch == old(core).epoch
            &&& final(core).crossfade_ms == old(core).crossfade_ms
            &&& final(core).crossfade_armed_for == old(core).crossfade_armed_for
        },
{
    if index >= core.queue.len() {
        return false;
    }
    core.failures = 0;
    if core.shuffle {
        core.shuffle_history = vec![index];
        core.shuffle_cursor = 0;
    }
    true
}

/// The player after a play request for `index`: that track is current and
/// Loading from the start, under the next generation, with no pending pick.
pub open spec fn began(c: PlayerCore, index: usize) -> PlayerCore {
    PlayerCore {
        current: Some(index),
        generation: (c.generation + 1) as u64,
        pending_next: None,
        state: PlaybackState::Loading,
        position_ms: 0,
        duration_ms: length_ms(c.queue@[index as int].duration),
        ..c
    }
}

/// The player after the download tagged `generation` delivered `fetched_ms`
/// of audio: Playing with a fresh failure budget when it is the current
/// request, unchanged when it was superseded.
pub open spec fn started(c: PlayerCore, generation: u64, fetched_ms: u64) -> PlayerCore {
    if c.generation == generation {
        PlayerCore {
            state: PlaybackState::Playing,
            failures: 0,
            duration_ms: if fetched_ms > 0 {
                fetched_ms
            } else {
                c.duration_ms
            },
            ..c
        }
    } else {
        c
    }
}

/// Start loading the track at `index`: it becomes current, the generation is
/// bumped (so an older download still in flight is ignored when it lands),
/// any prefetched crossfade pick is dropped, and the state turns to Loading.
/// Returns the track to fetch and the generation tagging the request, or
/// `None`, changing nothing, when `index` is past the end of the queue.
pub fn begin_playback(core: &mut PlayerCore, index: usize) -> (r: Option<(Track, u64)>)
    requires
        index < old(core).queue@.len() ==> old(core).generation < u64::MAX,
    ensures
        index >= old(core).queue@.len() ==> r is None && *final(core) == *old(core),
        index < old(core).queue@.len() ==> *final(core) == began(*old(core), index),
        index < old(core).queue@.len() ==> {
            &&& r is Some
            &&& (r->0).0@ == old(core).queue@[index as int]@
            &&& (r->0).1 == old(core).generation + 1
            &&& final(core).generation == old(core).generation + 1
            &&& final(core).current == Some(index)
            &&& final(core).pending_next is None
            &&& final(core).state == PlaybackState::Loading
            &&& final(core).position_ms == 0
            &&& final(core).duration_ms == length_ms(old(core).queue@[index as int].duration)
            &&& final(core).queue == old(core).queue
            &&& final(core).shuffle == old(core).shuffle
            &&& final(core).repeat == old(core).repeat
            &&& final(core).source == old(core).source
            &&& final(core).shuffle_history == old(core).shuffle_history
            &&& final(core).shuffle_cursor == old(core).shuffle_cursor
            &&& final(core).epoch == old(core).epoch
            &&& final(core).failures == old(core).failures
            &&& final(core).crossfade_ms == old(core).crossfade_ms
            &&& final(core).crossfade_armed_for == old(core).crossfade_armed_for
        },
{
    if index >= core.queue.len() {
        return None;
    }
    let track = core.queue[index].clone();
    core.current = Some(index);
    core.generation = core.generation + 1;
    core.pending_next = None;
    core.state = PlaybackState::Loading;
    core.position_ms = 0;
    core.duration_ms = duration_ms_of(track.duration);
    Some((track, core.generation))
}

/// A download tagged `generation` delivered its audio (`fetched_ms` is the
/// stream's length, 0 if unknown). If it is still the current request the
/// track is now Playing with a fresh failure budget and the known length;
/// returns false, changing nothing, for a superseded request.
pub fn playback_started(core: &mut PlayerCore, generation: u64, fetched_ms: u64) -> (r: bool)
    ensures
        r == (old(core).generation == generation),
        *final(core) == started(*old(core), generation, fetched_ms),
        !r ==> *final(core) == *old(core),
        r ==> {
            &&& final(core).state == PlaybackState::Playing
            &&& final(core).failures == 0
            &&& final(core).duration_ms == if fetched_ms > 0 { fetched_ms } else { old(core).duration_ms }
            &&& final(core).queue == old(core).queue
            &&& final(core).current == old(core).current
            &&& final(core).shuffle == old(core).shuffle
            &&& final(core).repeat == old(core).repeat
            &&& final(core).position_ms == old(core).position_ms
            &&& final(core).source == old(core).source
            &&& final(core).shuffle_history == old(core).shuffle_history
            &&& final(core).shuffle_cursor == old(core).shuffle_cursor
            &&& final(core).generation == old(core).generation
            &&& final(core).epoch == old(core).epoch
            &&& final(core).crossfade_ms == old(core).crossfade_ms
            &&& final(core).crossfade_armed_for == old(core).crossfade_armed_for
            &&& final(core).pending_next == old(core).pending_next
        },
{
    if core.generation != generation {
        return false;
    }
    core.state = PlaybackState::Playing;
    core.failures = 0;
    if fetched_ms > 0 {
        core.duration_ms = fetched_ms;
    }
    true
}

/// What to do after a download failed.
#[derive(Debug, Clone, Copy, PartialEq, Eq, Structural)]
pub enum FailureAction {
    /// The request was superseded; ignore it.
    Stale,
    /// Skip to the next track.
    Skip,
    /// Too many failures in a row (a whole queue's worth): stop.
    Stop,
}

/// The retry budget for consecutive failures: the queue length (at least 1),
/// as a `u32`.
pub open spec fn failure_budget(len: nat) -> u32 {
    (if len > 1 { len } else { 1 }) as u32
}

/// A download tagged `generation` failed. For the current request the
/// failure is counted; the bad track is skipped while fewer than a queue's
/// worth of consecutive failures have happened, otherwise playback stops so an
/// all-broken queue can't spin forever.
pub fn playback_failed(core: &mut PlayerCore, generation: u64) -> (r: FailureAction)
    requires
        old(core).generation == generation ==> old(core).failures < u32::MAX,
    ensures
        old(core).generation != generation ==> r == FailureAction::Stale && *final(core) == *old(core),
        old(core).generation == generation && old(core).queue@.len() <= u32::MAX ==> (r == FailureAction::Skip
            <==> old(core).failures + 1 < old(core).queue@.len()),
        old(core).generation == generation ==> {
            &&& final(core).failures == old(core).failures + 1
            &&& if final(core).failures < failure_budget(old(core).queue@.len()) {
                r == FailureAction::Skip && final(core).state == old(core).state
            } else {
                r == FailureAction::Stop && final(core).state == PlaybackState::Stopped
            }
            &&& final(core).queue == old(core).queue
            &&& final(core).current == old(core).current
            &&& final(core).shuffle == old(core).shuffle
            &&& final(core).repeat == old(core).repeat
            &&& final(core).position_ms == old(core).position_ms
            &&& final(core).duration_ms == old(core).duration_ms
            &&& final(core).source == old(core).source
            &&& final(core).shuffle_history == old(core).shuffle_history
            &&& final(core).shuffle_cursor == old(core).shuffle_cursor
            &&& final(core).generation == old(core).generation
            &&& final(core).epoch == old(core).epoch
            &&& final(core).crossfade_ms == old(core).crossfade_ms
            &&& final(core).crossfade_armed_for == old(core).crossfade_armed_for
            &&& final(core).pending_next == old(core).pending_next
        },
{
    if core.generation != generation {
        return FailureAction::Stale;
    }
    core.failures = core.failures + 1;
    let len = core.queue.len();
    let budget = (if len > 1 { len } else { 1 }) as u32;
    if core.failures < budget {
        FailureAction::Skip
    } else {
        core.state = PlaybackState::Stopped;
        FailureAction::Stop
    }
}

/// What the play/pause control decided.
#[derive(Debug, Clone, Copy, PartialEq, Eq, Structural)]
pub enum ToggleAction {
    /// Nothing to do.
    Nothing,
    /// The state changed to this; announce it.
    Emit(PlaybackState),
    /// Restart the stopped track at this index.
    Replay(usize),
    /// An in-flight load was cancelled; stop the audio.
    Cancel,
}

/// Toggle play/pause, resume a stopped track, or cancel an in-flight load
/// (bumping the generation so the pending download is discarded).
pub fn toggle_playback(core: &mut PlayerCore) -> (r: ToggleAction)
    requires
        old(core).state == PlaybackState::Loading ==> old(core).generation < u64::MAX,
    ensures
        same_except_transport(*old(core), *final(core)),
        match old(core).state {
            PlaybackState::Playing => r == ToggleAction::Emit(PlaybackState::Paused)
                && final(core).state == PlaybackState::Paused
                && final(core).position_ms == old(core).position_ms
                && final(core).generation == old(core).generation,
            PlaybackState::Paused => r == ToggleAction::Emit(PlaybackState::Playing)
                && final(core).state == PlaybackState::Playing
                && final(core).position_ms == old(core).position_ms
                && final(core).generation == old(core).generation,
            PlaybackState::Stopped => *final(core) == *old(core) && r == match old(core).current {
                Some(i) => ToggleAction::Replay(i),
                None => ToggleAction::Nothing,
            },
            PlaybackState::Loading => r == ToggleAction::Cancel
                && final(core).state == PlaybackState::Stopped
                && final(core).position_ms == 0
                && final(core).generation == old(core).generation + 1,
        },
{
    match core.state {
        PlaybackState::Playing => {
            core.state = PlaybackState::Paused;
            ToggleAction::Emit(PlaybackState::Paused)
        },
        PlaybackState::Paused => {
            core.state = PlaybackState::Playing;
            ToggleAction::Emit(PlaybackState::Playing)
        },
        PlaybackState::Stopped => match core.current {
            Some(i) => ToggleAction::Replay(i),
            None => ToggleAction::Nothing,
        },
        PlaybackState::Loading => {
            core.generation = core.generation + 1;
            core.state = PlaybackState::Stopped;
            core.position_ms = 0;
            ToggleAction::Cancel
        },
    }
}

/// Stop playback and rewind to the start of the track.
pub fn stop(core: &mut PlayerCore)
    ensures
        final(core).state == PlaybackState::Stopped,
        final(core).position_ms == 0,
        final(core).generation == old(core).generation,
        same_except_transport(*old(core), *final(core)),
{
    core.state = PlaybackState::Stopped;
    core.position_ms = 0;
}

/// Seek within the playing or paused track, clamped to its length. Clears the
/// crossfade arm so a backward seek out of the overlap window can re-arm it.
/// Returns the new position, the length and the state, or `None`, changing
/// nothing, when no track is playing or paused.
pub fn seek(core: &mut PlayerCore, position_ms: u64) -> (r: Option<(u64, u64, PlaybackState)>)
    ensures
        !(old(core).state == PlaybackState::Playing || old(core).state == PlaybackState::Paused)
            ==> r is None && *final(core) == *old(core),
        (old(core).state == PlaybackState::Playing || old(core).state == PlaybackState::Paused) ==> {
            let p = if position_ms < old(core).duration_ms { position_ms } else { old(core).duration_ms };
            &&& r == Some((p, old(core).duration_ms, old(core).state))
            &&& final(core).position_ms == p
            &&& final(core).crossfade_armed_for is None
            &&& final(core).state == old(core).state
            &&& final(core).queue == old(core).queue
            &&& final(core).current == old(core).current
            &&& final(core).shuffle == old(core).shuffle
            &&& final(core).repeat == old(core).repeat
            &&& final(core).duration_ms == old(core).duration_ms
            &&& final(core).source == old(core).source
            &&& final(core).shuffle_history == old(core).shuffle_history
            &&& final(core).shuffle_cursor == old(core).shuffle_cursor
            &&& final(core).generation == old(core).generation
            &&& final(core).epoch == old(core).epoch
            &&& final(core).failures == old(core).failures
            &&& final(core).crossfade_ms == old(core).crossfade_ms
            &&& final(core).pending_next == old(core).pending_next
        },
{
    if core.state != PlaybackState::Playing && core.state != PlaybackState::Paused {
        return None;
    }
    core.position_ms = if position_ms < core.duration_ms { position_ms } else { core.duration_ms };
    core.crossfade_armed_for = None;
    Some((core.position_ms, core.duration_ms, core.state))
}

/// Flip shuffle, anchoring the history on the current track so it isn't
/// immediately repeated and Previous has a sane starting point.
pub fn toggle_shuffle(core: &mut PlayerCore)
    ensures
        final(core).shuffle == !old(core).shuffle,
        final(core).shuffle_history@ == match old(core).current {
            Some(c) => seq![c],
            None => Seq::<usize>::empty(),
        },
        final(core).shuffle_cursor == 0,
        final(core).queue == old(core).queue,
        final(core).current == old(core).current,
        final(core).pending_next == old(core).pending_next,
        final(core).repeat == old(core).repeat,
        final(core).state == old(core).state,
        final(core).position_ms == old(core).position_ms,
        final(core).duration_ms == old(core).duration_ms,
        final(core).source == old(core).source,
        final(core).generation == old(core).generation,
        final(core).epoch == old(core).epoch,
        final(core).failures == old(core).failures,
        final(core).crossfade_ms == old(core).crossfade_ms,
        final(core).crossfade_armed_for == old(core).crossfade_armed_for,
{
    core.shuffle = !core.shuffle;
    core.shuffle_history = match core.current {
        Some(c) => vec![c],
        None => Vec::new(),
    };
    core.shuffle_cursor = 0;
}

/// Advance the repeat mode: Off, All, One, then Off again.
pub fn cycle_repeat(core: &mut PlayerCore)
    ensures
        final(core).repeat == repeat_after(old(core).repeat),
        final(core).queue == old(core).queue,
        final(core).current == old(core).current,
        final(core).shuffle_history == old(core).shuffle_history,
        final(core).shuffle_cursor == old(core).shuffle_cursor,
        final(core).pending_next == old(core).pending_next,
        final(core).shuffle == old(core).shuffle,
        final(core).state == old(core).state,
        final(core).position_ms == old(core).position_ms,
        final(core).duration_ms == old(core).duration_ms,
        final(core).source == old(core).source,
        final(core).generation == old(core).generation,
        final(core).epoch == old(core).epoch,
        final(core).failures == old(core).failures,
        final(core).crossfade_ms == old(core).crossfade_ms,
        final(core).crossfade_armed_for == old(core).crossfade_armed_for,
{
    core.repeat = core.repeat.cycled();
}

/// `b` keeps `a`'s playback fields other than the epoch: the fields a
/// queue replacement leaves alone.
pub open spec fn same_except_queue(a: PlayerCore, b: PlayerCore) -> bool {
    &&& b.current == a.current
    &&& b.shuffle == a.shuffle
    &&& b.repeat == a.repeat
    &&& b.state == a.state
    &&& b.position_ms == a.position_ms
    &&& b.duration_ms == a.duration_ms
    &&& b.generation == a.generation
    &&& b.failures == a.failures
    &&& b.crossfade_ms == a.crossfade_ms
    &&& b.crossfade_armed_for == a.crossfade_armed_for
    &&& b.pending_next == a.pending_next
}

/// Empty the queue (and its source and shuffle history), bumping the epoch so
/// an in-flight radio fill for the old queue is dropped.
pub fn clear_queue(core: &mut PlayerCore)
    requires
        old(core).epoch < u64::MAX,
    ensures
        final(core).queue@.len() == 0,
        final(core).current is None,
        final(core).source is None,
        final(core).shuffle_history@.len() == 0,
        final(core).shuffle_cursor == 0,
        final(core).epoch == old(core).epoch + 1,
        final(core).shuffle == old(core).shuffle,
        final(core).repeat == old(core).repeat,
        final(core).state == old(core).state,
        final(core).position_ms == old(core).position_ms,
        final(core).duration_ms == old(core).duration_ms,
        final(core).generation == old(core).generation,
        final(core).failures == old(core).failures,
        final(core).crossfade_ms == old(core).crossfade_ms,
        final(core).crossfade_armed_for == old(core).crossfade_armed_for,
        final(core).pending_next == old(core).pending_next,
{
    core.queue.clear();
    core.current = None;
    core.source = None;
    core.shuffle_history.clear();
    core.shuffle_cursor = 0;
    core.epoch = core.epoch + 1;
}

/// Replace the queue with `tracks` from `source` before starting at `start`
/// (the caller then jumps there). Refuses, changing nothing, when there is
/// nothing to play: an empty list or `start` past its end.
pub fn load_tracks(core: &mut PlayerCore, tracks: Vec<Track>, start: usize, source: Option<String>) -> (r: Result<(), String>)
    requires
        tracks@.len() > 0 && start < tracks@.len() ==> old(core).epoch < u64::MAX,
    ensures
        (tracks@.len() == 0 || start >= tracks@.len()) ==> r is Err && *final(core) == *old(core)
            && r->Err_0@ == "nothing to play"@,
        (tracks@.len() > 0 && start < tracks@.len()) ==> {
            &&& r is Ok
            &&& final(core).queue@ == tracks@
            &&& final(core).source == source
            &&& final(core).shuffle_history@.len() == 0
            &&& final(core).shuffle_cursor == 0
            &&& final(core).epoch == old(core).epoch + 1
            &&& same_except_queue(*old(core), *final(core))
        },
{
    if tracks.len() == 0 || start >= tracks.len() {
        return Err(String::from_str("nothing to play"));
    }
    core.queue = tracks;
    core.source = source;
    core.shuffle_history.clear();
    core.shuffle_cursor = 0;
    core.epoch = core.epoch + 1;
    Ok(())
}

/// Replace the queue with the single `track` (no source) before playing it.
/// Returns the new epoch, which a following radio fill must match.
pub fn load_single(core: &mut PlayerCore, track: Track) -> (r: u64)
    requires
        old(core).epoch < u64::MAX,
    ensures
        final(core).queue@ == seq![track],
        final(core).source is None,
        final(core).shuffle_history@.len() == 0,
        final(core).shuffle_cursor == 0,
        final(core).epoch == old(core).epoch + 1,
        r == final(core).epoch,
        same_except_queue(*old(core), *final(core)),
{
    core.queue = vec![track];
    core.source = None;
    core.shuffle_history.clear();
    core.shuffle_cursor = 0;
    core.epoch = core.epoch + 1;
    core.epoch
}

/// Extend the queue with a radio's related tracks, skipping ids already
/// queued. Returns false, changing nothing, when the queue was replaced
/// since the radio was requested (its epoch no longer matches).
pub fn radio_fill(core: &mut PlayerCore, epoch: u64, tracks: Vec<Track>) -> (r: bool)
    ensures
        r == (old(core).epoch == epoch),
        !r ==> *final(core) == *old(core),
        r ==> {
            &&& final(core).queue@ == old(core).queue@ + fresh_tracks(old(core).queue@, tracks@)
            &&& final(core).source == old(core).source
            &&& final(core).shuffle_history == old(core).shuffle_history
            &&& final(core).shuffle_cursor == old(core).shuffle_cursor
            &&& final(core).epoch == old(core).epoch
            &&& same_except_queue(*old(core), *final(core))
        },
{
    if core.epoch != epoch {
        return false;
    }
    let mut new = dedupe_new(&core.queue, tracks);
    core.queue.append(&mut new);
    true
}

/// `after` and `r` are what pinning the next track for a crossfade gives,
/// with `draw` as the random choice: the next step's pick becomes the pending
/// pick and is returned with the current generation and the overlap; with no
/// next track nothing is returned. Only the navigation bookkeeping changes.
pub open spec fn crossfade_pinned(before: PlayerCore, draw: u64, after: PlayerCore, r: Option<(usize, u64, u64)>) -> bool {
    let s = next_step(before, false, draw);
    &&& r == match s.pick {
        Some(i) => Some((i, before.generation, before.crossfade_ms)),
        None => None,
    }
    &&& after.pending_next == if s.pick is Some {
        s.pick
    } else {
        s.pending
    }
    &&& after.shuffle_history@ == s.history
    &&& after.shuffle_cursor == s.cursor
    &&& after.queue == before.queue
    &&& after.current == before.current
    &&& same_playback(before, after)
}

/// Draw the next track ahead of a crossfade (with `draw` as the random
/// choice) and pin it as the pending pick, so whichever advance happens first
/// (the crossfade commit or the natural end of the track) uses it instead of
/// drawing again. Returns the picked index, the generation the crossfade is
/// anchored to and the overlap, or `None` when there is no next track.
pub fn begin_crossfade_with(core: &mut PlayerCore, draw: u64) -> (r: Option<(usize, u64, u64)>)
    ensures
        crossfade_pinned(*old(core), draw, *final(core), r),
{
    let next = pick_next_with(core, false, draw);
    match next {
        Some(i) => {
            core.pending_next = Some(i);
            Some((i, core.generation, core.crossfade_ms))
        },
        None => None,
    }
}

/// [`begin_crossfade_with`] with a random draw.
pub fn begin_crossfade(core: &mut PlayerCore) -> (r: Option<(usize, u64, u64)>)
    ensures
        exists|draw: u64| #[trigger] crossfade_pinned(*old(core), draw, *final(core), r),
{
    let draw = random_u64();
    begin_crossfade_with(core, draw)
}

/// What became of a crossfade whose next track finished downloading.
#[derive(Debug, Clone, Copy, PartialEq, Eq, Structural)]
pub enum CrossfadeOutcome {
    /// Something else advanced meanwhile; drop it.
    Stale,
    /// Paused, or the position left the overlap window: leave the pick
    /// pending for the natural end of the track.
    Deferred,
    /// The crossfade began; the new track has this length.
    Committed(u64),
}

/// The position is still within `crossfade_ms` of the end of the track (or
/// the length is unknown).
pub open spec fn in_overlap_window(c: PlayerCore) -> bool {
    !(c.duration_ms > 0 && c.duration_ms > c.position_ms && c.duration_ms - c.position_ms > c.crossfade_ms)
}

/// Whether the position is still within the crossfade overlap of the end of
/// the track (see [`in_overlap_window`]).
pub fn overlap_window_open(c: &PlayerCore) -> (r: bool)
    ensures
        r == in_overlap_window(*c),
{
    !(c.duration_ms > 0 && c.duration_ms > c.position_ms && c.duration_ms - c.position_ms > c.crossfade_ms)
}

/// What the commit of a crossfade into `index` anchored at `anchor` decides
/// on `c` (see [`commit_crossfade`]).
pub open spec fn commit_outcome(c: PlayerCore, index: usize, anchor: u64, fetched_ms: u64, track_secs: Option<u32>) -> CrossfadeOutcome {
    if c.generation != anchor || c.pending_next != Some(index) {
        CrossfadeOutcome::Stale
    } else if c.state != PlaybackState::Playing || !in_overlap_window(c) {
        CrossfadeOutcome::Deferred
    } else {
        CrossfadeOutcome::Committed(
            if fetched_ms > 0 {
                fetched_ms
            } else {
                length_ms(track_secs)
            },
        )
    }
}

/// The player after that commit: unchanged unless it commits; then `index`
/// is current and Playing from the start under the next generation, with
/// the pick consumed and a fresh failure budget.
pub open spec fn after_commit(c: PlayerCore, index: usize, anchor: u64, fetched_ms: u64, track_secs: Option<u32>) -> PlayerCore {
    match commit_outcome(c, index, anchor, fetched_ms, track_secs) {
        CrossfadeOutcome::Committed(d) => PlayerCore {
            pending_next: None,
            current: Some(index),
            state: PlaybackState::Playing,
            generation: (c.generation + 1) as u64,
            failures: 0,
            position_ms: 0,
            duration_ms: d,
            ..c
        },
        _ => c,
    }
}

/// The download for a crossfade into `index`, anchored at `anchor`, is ready
/// (`fetched_ms` is its length, 0 if unknown; `track_secs` the length its
/// metadata gave). It commits only if nothing advanced meanwhile, playback is
/// still running and the position is still in the overlap window; then the
/// pick is consumed and the new track becomes current and Playing.
pub fn commit_crossfade(
    core: &mut PlayerCore,
    index: usize,
    anchor: u64,
    fetched_ms: u64,
    track_secs: Option<u32>,
) -> (r: CrossfadeOutcome)
    requires
        old(core).generation == anchor && old(core).pending_next == Some(index) && old(core).state
            == PlaybackState::Playing && in_overlap_window(*old(core)) ==> old(core).generation < u64::MAX,
    ensures
        r == commit_outcome(*old(core), index, anchor, fetched_ms, track_secs),
        *final(core) == after_commit(*old(core), index, anchor, fetched_ms, track_secs),
        (old(core).generation != anchor || old(core).pending_next != Some(index)) ==> r
            == CrossfadeOutcome::Stale && *final(core) == *old(core),
        (old(core).generation == anchor && old(core).pending_next == Some(index)) ==> {
            if old(core).state != PlaybackState::Playing || !in_overlap_window(*old(core)) {
                r == CrossfadeOutcome::Deferred && *final(core) == *old(core)
            } else {
                let d = if fetched_ms > 0 { fetched_ms } else { length_ms(track_secs) };
                &&& r == CrossfadeOutcome::Committed(d)
                &&& final(core).pending_next is None
                &&& final(core).current == Some(index)
                &&& final(core).state == PlaybackState::Playing
                &&& final(core).generation == old(core).generation + 1
                &&& final(core).failures == 0
                &&& final(core).position_ms == 0
                &&& final(core).duration_ms == d
                &&& final(core).queue == old(core).queue
                &&& final(core).shuffle == old(core).shuffle
                &&& final(core).repeat == old(core).repeat
                &&& final(core).source == old(core).source
                &&& final(core).shuffle_history == old(core).shuffle_history
                &&& final(core).shuffle_cursor == old(core).shuffle_cursor
                &&& final(core).epoch == old(core).epoch
                &&& final(core).crossfade_ms == old(core).crossfade_ms
                &&& final(core).crossfade_armed_for == old(core).crossfade_armed_for
            }
        },
{
    if core.generation != anchor {
        return CrossfadeOutcome::Stale;
    }
    match core.pending_next {
        Some(p) => {
            if p != index {
                return CrossfadeOutcome::Stale;
            }
        },
        None => return CrossfadeOutcome::Stale,
    }
    if core.state != PlaybackState::Playing {
        return CrossfadeOutcome::Deferred;
    }
    if !overlap_window_open(core) {
        return CrossfadeOutcome::Deferred;
    }
    core.pending_next = None;
    core.current = Some(index);
    core.state = PlaybackState::Playing;
    core.generation = core.generation + 1;
    core.failures = 0;
    core.position_ms = 0;
    core.duration_ms = if fetched_ms > 0 { fetched_ms } else { duration_ms_of(track_secs) };
    CrossfadeOutcome::Committed(core.duration_ms)
}

/// The decoder reported the track's authoritative length. Records it and
/// returns whether it is a real correction (off by more than half a second)
/// worth announcing.
pub fn length_reported(core: &mut PlayerCore, duration_ms: u64) -> (r: bool)
    ensures
        r == (if old(core).duration_ms > duration_ms {
            old(core).duration_ms - duration_ms
        } else {
            duration_ms - old(core).duration_ms
        } > 500),
        final(core).duration_ms == duration_ms,
        final(core).queue == old(core).queue,
        final(core).current == old(core).current,
        final(core).shuffle == old(core).shuffle,
        final(core).repeat == old(core).repeat,
        final(core).state == old(core).state,
        final(core).position_ms == old(core).position_ms,
        final(core).source == old(core).source,
        final(core).shuffle_history == old(core).shuffle_history,
        final(core).shuffle_cursor == old(core).shuffle_cursor,
        final(core).generation == old(core).generation,
        final(core).epoch == old(core).epoch,
        final(core).failures == old(core).failures,
        final(core).crossfade_ms == old(core).crossfade_ms,
        final(core).crossfade_armed_for == old(core).crossfade_armed_for,
        final(core).pending_next == old(core).pending_next,
{
    let diff = if core.duration_ms > duration_ms {
        core.duration_ms - duration_ms
    } else {
        duration_ms - core.duration_ms
    };
    core.duration_ms = duration_ms;
    diff > 500
}

/// A crossfade should start now: enabled, playing, not repeat-one, the
/// length known, not yet armed for this track nor already prefetching, and
/// `position_ms` within the overlap window of the end.
pub open spec fn should_arm(c: PlayerCore, position_ms: u64) -> bool {
    &&& c.crossfade_ms > 0
    &&& c.state == PlaybackState::Playing
    &&& c.repeat != RepeatMode::One
    &&& c.duration_ms > 0
    &&& c.crossfade_armed_for != Some(c.generation)
    &&& c.pending_next is None
    &&& (position_ms >= c.duration_ms || c.duration_ms - position_ms <= c.crossfade_ms)
}

/// The audio reported a new position. Records it and, when a crossfade
/// should start, arms it once for the current generation and returns true.
pub fn position_reported(core: &mut PlayerCore, position_ms: u64) -> (r: bool)
    ensures
        r == should_arm(*old(core), position_ms),
        final(core).position_ms == position_ms,
        final(core).crossfade_armed_for == if r { Some(old(core).generation) } else {
            old(core).crossfade_armed_for
        },
        final(core).queue == old(core).queue,
        final(core).current == old(core).current,
        final(core).shuffle == old(core).shuffle,
        final(core).repeat == old(core).repeat,
        final(core).state == old(core).state,
        final(core).duration_ms == old(core).duration_ms,
        final(core).source == old(core).source,
        final(core).shuffle_history == old(core).shuffle_history,
        final(core).shuffle_cursor == old(core).shuffle_cursor,
        final(core).generation == old(core).generation,
        final(core).epoch == old(core).epoch,
        final(core).failures == old(core).failures,
        final(core).crossfade_ms == old(core).crossfade_ms,
        final(core).pending_next == old(core).pending_next,
{
    core.position_ms = position_ms;
    let armed_here = match core.crossfade_armed_for {
        Some(g) => g == core.generation,
        None => false,
    };
    let arm = core.crossfade_ms > 0 && core.state == PlaybackState::Playing && core.repeat != RepeatMode::One
        && core.duration_ms > 0 && !armed_here && core.pending_next.is_none() && (position_ms
        >= core.duration_ms || core.duration_ms - position_ms <= core.crossfade_ms);
    if arm {
        core.crossfade_armed_for = Some(core.generation);
    }
    arm
}

/// The player state restored from a previous session's snapshot: stopped,
/// not auto-playing, with the current index kept only if it points into the
/// restored queue, its length taken from the track, and under shuffle a
/// history anchored on it.
pub fn restore_session(snap: QueueSnapshot) -> (r: PlayerCore)
    ensures
        r.queue@ == snap.tracks@,
        r.current == match snap.current {
            Some(i) => if i < snap.tracks@.len() { Some(i) } else { None },
            None => None,
        },
        r.shuffle == snap.shuffle,
        r.repeat == snap.repeat,
        r.source == snap.source,
        r.duration_ms == match r.current {
            Some(i) => length_ms(snap.tracks@[i as int].duration),
            None => 0,
        },
        r.shuffle_history@ == if r.shuffle && r.current is Some { seq![r.current->0] } else { Seq::<
            usize,
        >::empty() },
        r.state == PlaybackState::Stopped,
        r.position_ms == 0,
        r.shuffle_cursor == 0,
        r.generation == 0,
        r.epoch == 0,
        r.failures == 0,
        r.crossfade_ms == 0,
        r.crossfade_armed_for is None,
        r.pending_next is None,
{
    let mut core = PlayerCore::default();
    core.shuffle = snap.shuffle;
    core.repeat = snap.repeat;
    core.source = snap.source;
    core.current = match snap.current {
        Some(i) => if i < snap.tracks.len() { Some(i) } else { None },
        None => None,
    };
    core.queue = snap.tracks;
    match core.current {
        Some(i) => {
            core.duration_ms = duration_ms_of(core.queue[i].duration);
            if core.shuffle {
                core.shuffle_history = vec![i];
            }
        },
        None => {},
    }
    core
}

/// The message shown when the track titled `title` could not be played,
/// with `detail` from the error.
pub fn play_failure_message(title: &str, detail: &str) -> (r: String)
    ensures
        r@ == "Could not play \u{201c}"@ + title@ + "\u{201d}: "@ + detail@,
{
    let mut s = String::new();
    s.append("Could not play \u{201c}");
    s.append(title);
    s.append("\u{201d}: ");
    s.append(detail);
    s
}

} // verus!
