use rift::library::LibraryStore;
use rift::model::{Library, PlaybackState, RepeatMode, Track};
use rift::player::playback::{
    begin_crossfade, begin_crossfade_with, begin_playback, playback_started, commit_crossfade, length_reported, load_single, play_failure_message,
    playback_failed, position_reported, prepare_jump, radio_fill, restore_session, toggle_playback,
    CrossfadeOutcome, FailureAction, ToggleAction,
};
use rift::player::queue::refresh_queued;
use rift::player::PlayerCore;
use rift::presence::paces_interval;
use rift::presence::PresenceStep;

fn track(id: &str) -> Track {
    Track {
        id: id.into(),
        title: id.into(),
        artist: String::new(),
        album: None,
        duration: Some(200),
        cover: String::new(),
        artists: Vec::new(),
        album_id: None,
    }
}

fn core_with(ids: &[&str], current: Option<usize>) -> PlayerCore {
    PlayerCore { queue: ids.iter().map(|i| track(i)).collect(), current, ..PlayerCore::default() }
}

#[test]
fn a_jump_resets_the_failure_budget_and_anchors_shuffle() {
    let mut core = core_with(&["a", "b", "c"], Some(0));
    core.failures = 2;
    core.shuffle = true;
    core.shuffle_history = vec![0, 2];
    assert!(prepare_jump(&mut core, 1));
    assert_eq!(core.failures, 0);
    assert_eq!(core.shuffle_history, vec![1]);
    assert!(!prepare_jump(&mut core, 3));
}

#[test]
fn failures_skip_until_a_whole_queue_failed() {
    let mut core = core_with(&["a", "b"], Some(0));
    core.generation = 4;
    core.state = PlaybackState::Loading;
    assert_eq!(playback_failed(&mut core, 3), FailureAction::Stale);
    assert_eq!(playback_failed(&mut core, 4), FailureAction::Skip);
    assert_eq!(playback_failed(&mut core, 4), FailureAction::Stop);
    assert_eq!(core.state, PlaybackState::Stopped);
    assert_eq!(play_failure_message("a", "gone"), "Could not play \u{201c}a\u{201d}: gone");
}

#[test]
fn play_pause_resume_and_cancel() {
    let mut core = core_with(&["a"], Some(0));
    core.state = PlaybackState::Playing;
    assert_eq!(toggle_playback(&mut core), ToggleAction::Emit(PlaybackState::Paused));
    assert_eq!(toggle_playback(&mut core), ToggleAction::Emit(PlaybackState::Playing));
    core.state = PlaybackState::Stopped;
    assert_eq!(toggle_playback(&mut core), ToggleAction::Replay(0));
    core.state = PlaybackState::Loading;
    let before = core.generation;
    assert_eq!(toggle_playback(&mut core), ToggleAction::Cancel);
    assert_eq!(core.generation, before + 1);
    assert_eq!(core.state, PlaybackState::Stopped);
    let mut idle = PlayerCore::default();
    assert_eq!(toggle_playback(&mut idle), ToggleAction::Nothing);
}

#[test]
fn radio_fills_only_the_queue_it_was_asked_for() {
    let mut core = PlayerCore::default();
    let epoch = load_single(&mut core, track("seed"));
    assert_eq!(core.queue.len(), 1);
    assert!(radio_fill(&mut core, epoch, vec![track("seed"), track("x"), track("y")]));
    let ids: Vec<&str> = core.queue.iter().map(|t| t.id.as_str()).collect();
    assert_eq!(ids, vec!["seed", "x", "y"]);
    let again = load_single(&mut core, track("other"));
    assert!(!radio_fill(&mut core, epoch, vec![track("z")]), "stale radio dropped");
    assert_eq!(core.queue.len(), 1);
    assert_eq!(again, epoch + 1);
}

#[test]
fn crossfade_arms_once_then_commits_the_pending_pick() {
    let mut core = core_with(&["a", "b", "c"], Some(0));
    core.state = PlaybackState::Playing;
    core.crossfade_ms = 5_000;
    core.duration_ms = 200_000;
    assert!(!position_reported(&mut core, 100_000), "not near the end yet");
    assert!(position_reported(&mut core, 196_000));
    assert!(!position_reported(&mut core, 197_000), "armed once per track");
    let (next, anchor, overlap) = begin_crossfade_with(&mut core, 0).expect("a next track");
    assert_eq!((next, overlap), (1, 5_000));
    assert_eq!(core.pending_next, Some(1));
    assert_eq!(commit_crossfade(&mut core, 2, anchor, 0, None), CrossfadeOutcome::Stale);
    assert_eq!(commit_crossfade(&mut core, 1, anchor, 180_000, Some(200)), CrossfadeOutcome::Committed(180_000));
    assert_eq!(core.current, Some(1));
    assert_eq!(core.pending_next, None);
    assert_eq!(core.generation, anchor + 1);
}

#[test]
fn a_crossfade_waits_while_paused() {
    let mut core = core_with(&["a", "b"], Some(0));
    core.state = PlaybackState::Playing;
    core.crossfade_ms = 5_000;
    core.duration_ms = 10_000;
    core.position_ms = 9_000;
    let (next, anchor, _) = begin_crossfade(&mut core).expect("a next track");
    core.state = PlaybackState::Paused;
    assert_eq!(commit_crossfade(&mut core, next, anchor, 0, Some(3)), CrossfadeOutcome::Deferred);
    assert_eq!(core.pending_next, Some(next));
}

#[test]
fn only_real_length_corrections_are_announced() {
    let mut core = core_with(&["a"], Some(0));
    core.duration_ms = 200_000;
    assert!(!length_reported(&mut core, 200_400));
    assert!(length_reported(&mut core, 190_000));
    assert_eq!(core.duration_ms, 190_000);
}

#[test]
fn a_refreshed_track_goes_back_into_its_slot_only() {
    let mut core = core_with(&["a", "b"], Some(0));
    let mut enriched = track("b");
    enriched.artist = "B".into();
    assert!(refresh_queued(&mut core, 1, enriched.clone()));
    assert_eq!(core.queue[1].artist, "B");
    assert!(!refresh_queued(&mut core, 0, enriched.clone()), "slot holds another track");
    assert!(!refresh_queued(&mut core, 9, enriched));
}

#[test]
fn restored_sessions_are_stopped_and_keep_valid_positions() {
    let snap = rift::model::QueueSnapshot {
        tracks: vec![track("a"), track("b")],
        current: Some(1),
        shuffle: true,
        repeat: RepeatMode::All,
        source: Some("liked".into()),
    };
    let core = restore_session(snap);
    assert_eq!(core.current, Some(1));
    assert_eq!(core.duration_ms, 200_000);
    assert_eq!(core.shuffle_history, vec![1]);
    assert_eq!(core.state, PlaybackState::Stopped);
    let stale = rift::model::QueueSnapshot {
        tracks: vec![track("a")],
        current: Some(5),
        shuffle: false,
        repeat: RepeatMode::Off,
        source: None,
    };
    assert_eq!(restore_session(stale).current, None);
}

#[test]
fn imported_playlists_get_fresh_ids() {
    let mut lib = LibraryStore { data: Library::default() };
    let a = lib.create_playlist_with("Mix".into(), vec![track("a")]);
    let b = lib.create_playlist_with("Mix".into(), vec![track("a")]);
    assert_eq!(a.tracks.len(), 1);
    assert_eq!(lib.data.playlists.len(), 2);
    assert!(a.id.starts_with("pl-") && b.id.starts_with("pl-"));
}

#[test]
fn only_calls_out_pace_the_presence() {
    assert!(paces_interval(&PresenceStep::Show));
    assert!(paces_interval(&PresenceStep::Clear));
    assert!(!paces_interval(&PresenceStep::Hold));
    assert!(!paces_interval(&PresenceStep::Idle));
}

#[test]
fn a_fetch_overtaken_by_a_newer_request_is_ignored() {
    let mut core = core_with(&["a", "b", "c"], None);
    let (first, g1) = begin_playback(&mut core, 0).expect("in range");
    assert_eq!(first.id, "a");
    let (second, g2) = begin_playback(&mut core, 2).expect("in range");
    assert_eq!(second.id, "c");
    assert_eq!(g2, g1 + 1);
    assert!(!playback_started(&mut core, g1, 123_000), "stale success ignored");
    assert_eq!(core.state, PlaybackState::Loading);
    assert_eq!(core.current, Some(2));
    assert_eq!(playback_failed(&mut core, g1), FailureAction::Stale);
    assert_eq!(core.failures, 0);
    assert!(playback_started(&mut core, g2, 150_000));
    assert_eq!(core.state, PlaybackState::Playing);
    assert_eq!(core.duration_ms, 150_000);
    assert!(begin_playback(&mut core, 3).is_none(), "past the end");
    assert_eq!(core.generation, g2);
}

#[test]
fn a_crossfade_overtaken_by_a_play_request_is_stale() {
    let mut core = core_with(&["a", "b", "c"], Some(0));
    core.state = PlaybackState::Playing;
    core.crossfade_ms = 5_000;
    core.duration_ms = 10_000;
    core.position_ms = 8_000;
    let (next, anchor, _) = begin_crossfade_with(&mut core, 0).expect("a next track");
    assert_eq!(next, 1);
    begin_playback(&mut core, 2).expect("in range");
    core.pending_next = Some(next);
    assert_eq!(commit_crossfade(&mut core, next, anchor, 0, Some(3)), CrossfadeOutcome::Stale);
    assert_eq!(core.current, Some(2));
}

#[test]
fn a_crossfade_outside_the_overlap_window_is_deferred() {
    let mut core = core_with(&["a", "b"], Some(0));
    core.state = PlaybackState::Playing;
    core.crossfade_ms = 5_000;
    core.duration_ms = 200_000;
    core.position_ms = 100_000;
    let (next, anchor, _) = begin_crossfade_with(&mut core, 0).expect("a next track");
    assert_eq!(commit_crossfade(&mut core, next, anchor, 0, Some(3)), CrossfadeOutcome::Deferred);
    assert_eq!(core.current, Some(0));
    assert_eq!(core.generation, anchor);
    core.position_ms = 196_000;
    assert_eq!(commit_crossfade(&mut core, next, anchor, 0, Some(3)), CrossfadeOutcome::Committed(3_000));
    assert_eq!(core.current, Some(next));
}
