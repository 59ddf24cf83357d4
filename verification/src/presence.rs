//! Now-playing integrations: the Discord Rich Presence snapshot and when it
//! is pushed, and how playback maps onto the operating system's media
//! session. Times are whole milliseconds.

use vstd::prelude::*;

use crate::model::PlaybackState;

verus! {

broadcast use vstd::string::group_string_axioms;

/// Shortest spacing between pushes to Discord, which only re-renders the
/// activity on its own ~15 s cadence.
pub const MIN_INTERVAL_MS: u64 = 15_000;

/// With nothing changing, the presence is still re-sent this often so a
/// reconnect is retried after Discord is (re)started.
pub const HEARTBEAT_MS: u64 = 60_000;

/// What the presence shows about the current track.
pub struct NowPlaying {
    pub title: String,
    pub artist: String,
    pub cover: String,
    pub duration_ms: u64,
    pub state: PlaybackState,
    /// Wall-clock `(start, end)` of the time bar, when one shows.
    pub anchor: Option<(i64, i64)>,
}

/// An update sent to the presence.
pub enum PresenceCmd {
    Track { title: String, artist: String, cover: String, duration_ms: u64 },
    State { state: PlaybackState, position_ms: u64 },
    /// The decoder's authoritative length, with the current position.
    Duration { duration_ms: u64, position_ms: u64 },
    Enabled(bool),
}

/// The time bar's wall-clock endpoints at `now_ms`: shown only while
/// playing a track of known length, anchored so that `position_ms` has
/// elapsed.
pub open spec fn bar(state: PlaybackState, duration_ms: u64, position_ms: u64, now_ms: i64) -> Option<(i64, i64)> {
    if state == PlaybackState::Playing && duration_ms > 0 {
        Some(((now_ms - position_ms) as i64, (now_ms - position_ms + duration_ms) as i64))
    } else {
        None
    }
}

/// The clock values for which every bar fits in `i64`.
pub open spec fn bar_fits(duration_ms: u64, position_ms: u64, now_ms: i64) -> bool {
    &&& i64::MIN <= now_ms - position_ms
    &&& now_ms - position_ms + duration_ms <= i64::MAX
}

/// The time bar for a state (see [`bar`]).
pub fn anchor(state: PlaybackState, duration_ms: u64, position_ms: u64, now_ms: i64) -> (r: Option<(i64, i64)>)
    requires
        bar_fits(duration_ms, position_ms, now_ms),
    ensures
        r == bar(state, duration_ms, position_ms, now_ms),
{
    match state {
        PlaybackState::Playing => {
            if duration_ms > 0 {
                let start = (now_ms as i128 - position_ms as i128) as i64;
                let end = (start as i128 + duration_ms as i128) as i64;
                Some((start, end))
            } else {
                None
            }
        },
        _ => None,
    }
}

/// Fold one update into the retained snapshot at wall-clock `now_ms`: a new
/// track starts loading without a bar; a state change or a corrected length
/// re-anchors the bar; the switch turns the presence on or off.
pub fn fold(cmd: PresenceCmd, now: &mut Option<NowPlaying>, enabled: &mut bool, now_ms: i64)
    requires
        match cmd {
            PresenceCmd::State { state, position_ms } => match *old(now) {
                Some(n) => bar_fits(n.duration_ms, position_ms, now_ms),
                None => true,
            },
            PresenceCmd::Duration { duration_ms, position_ms } => bar_fits(duration_ms, position_ms, now_ms),
            _ => true,
        },
    ensures
        match cmd {
            PresenceCmd::Track { title, artist, cover, duration_ms } => *final(enabled) == *old(enabled)
                && *final(now) == Some(
                NowPlaying { title, artist, cover, duration_ms, state: PlaybackState::Loading, anchor: None },
            ),
            PresenceCmd::State { state, position_ms } => *final(enabled) == *old(enabled) && match *old(now) {
                Some(n) => *final(now) == Some(
                    NowPlaying { state, anchor: bar(state, n.duration_ms, position_ms, now_ms), ..n },
                ),
                None => *final(now) is None,
            },
            PresenceCmd::Duration { duration_ms, position_ms } => *final(enabled) == *old(enabled) && match *old(
                now,
            ) {
                Some(n) => *final(now) == Some(
                    NowPlaying { duration_ms, anchor: bar(n.state, duration_ms, position_ms, now_ms), ..n },
                ),
                None => *final(now) is None,
            },
            PresenceCmd::Enabled(on) => *final(enabled) == on && *final(now) == *old(now),
        },
{
    match cmd {
        PresenceCmd::Track { title, artist, cover, duration_ms } => {
            *now = Some(
                NowPlaying { title, artist, cover, duration_ms, state: PlaybackState::Loading, anchor: None },
            );
        },
        PresenceCmd::State { state, position_ms } => {
            match now.take() {
                Some(n) => {
                    let a = anchor(state, n.duration_ms, position_ms, now_ms);
                    *now = Some(NowPlaying { state, anchor: a, ..n });
                },
                None => {},
            }
        },
        PresenceCmd::Duration { duration_ms, position_ms } => {
            match now.take() {
                Some(n) => {
                    let a = anchor(n.state, duration_ms, position_ms, now_ms);
                    *now = Some(NowPlaying { duration_ms, anchor: a, ..n });
                },
                None => {},
            }
        },
        PresenceCmd::Enabled(on) => {
            *enabled = on;
        },
    }
}

/// Whether to push now, `elapsed_ms` after the last push: a pending change
/// waits out [`MIN_INTERVAL_MS`]; with nothing pending the presence is
/// re-asserted every [`HEARTBEAT_MS`].
pub fn should_push(dirty: bool, elapsed_ms: u64) -> (r: bool)
    ensures
        r == ((dirty && elapsed_ms >= MIN_INTERVAL_MS) || elapsed_ms >= HEARTBEAT_MS),
{
    (dirty && elapsed_ms >= MIN_INTERVAL_MS) || elapsed_ms >= HEARTBEAT_MS
}

/// What a push does to the presence.
#[derive(PartialEq, Eq, Structural)]
pub enum PresenceStep {
    /// A new track is still loading: leave the current presence up.
    Hold,
    /// Nothing to show and nothing shown: no call is made.
    Idle,
    /// Nothing to show: clear what the connected client shows.
    Clear,
    /// Show the snapshot (connecting first when needed).
    Show,
}

/// Decide a push: hold while a new track loads, show while playing or
/// paused, clear (when connected) when disabled, stopped or idle.
pub fn presence_step(enabled: bool, state: Option<PlaybackState>, connected: bool) -> (r: PresenceStep)
    ensures
        enabled && state == Some(PlaybackState::Loading) ==> r == PresenceStep::Hold,
        enabled && (state == Some(PlaybackState::Playing) || state == Some(PlaybackState::Paused)) ==> r
            == PresenceStep::Show,
        !(enabled && (state is Some && state != Some(PlaybackState::Stopped))) ==> r == if connected {
            PresenceStep::Clear
        } else {
            PresenceStep::Idle
        },
{
    if enabled {
        match state {
            Some(PlaybackState::Loading) => return PresenceStep::Hold,
            Some(PlaybackState::Playing) => return PresenceStep::Show,
            Some(PlaybackState::Paused) => return PresenceStep::Show,
            _ => {},
        }
    }
    if connected {
        PresenceStep::Clear
    } else {
        PresenceStep::Idle
    }
}

/// Whether a push paces the interval clock: only a step that calls out to
/// Discord does.
pub fn paces_interval(step: &PresenceStep) -> (r: bool)
    ensures
        r == (*step == PresenceStep::Clear || *step == PresenceStep::Show),
{
    match step {
        PresenceStep::Clear => true,
        PresenceStep::Show => true,
        _ => false,
    }
}

/// The activity shown for a snapshot.
pub struct PresenceActivity {
    pub details: String,
    pub state: String,
    /// The cover as the large image, when there is one.
    pub large_image: Option<String>,
    pub small_image: String,
    pub small_text: String,
    pub button_label: String,
    pub button_url: String,
    pub timestamps: Option<(i64, i64)>,
}

/// The "Listening to Rift" activity for a snapshot: title and artist, the
/// cover when known, the logo badge (asset `rift_logo`), the project's
/// GitHub button, and the time bar
/// when anchored.
pub fn build_activity(n: &NowPlaying) -> (r: PresenceActivity)
    ensures
        r.details == n.title,
        r.state == n.artist,
        r.large_image == if n.cover@.len() > 0 {
            Some(n.cover)
        } else {
            None
        },
        r.small_image@ == "rift_logo"@,
        r.small_text@ == "Rift"@,
        r.button_label@ == "View on GitHub"@,
        r.button_url@ == "https://github.com/gage-lodba/Rift"@,
        r.timestamps == n.anchor,
{
    PresenceActivity {
        details: n.title.clone(),
        state: n.artist.clone(),
        large_image: if n.cover.as_str().unicode_len() > 0 {
            Some(n.cover.clone())
        } else {
            None
        },
        small_image: "rift_logo".to_string(),
        small_text: "Rift".to_string(),
        button_label: "View on GitHub".to_string(),
        button_url: "https://github.com/gage-lodba/Rift".to_string(),
        timestamps: n.anchor,
    }
}

/// How the operating system's media session shows playback.
#[derive(PartialEq, Eq, Structural)]
pub enum OsPlayback {
    Playing,
    Paused,
    Stopped,
}

/// The media session state for a playback state: loading shows as paused.
pub fn os_playback(state: PlaybackState) -> (r: OsPlayback)
    ensures
        r == match state {
            PlaybackState::Playing => OsPlayback::Playing,
            PlaybackState::Paused => OsPlayback::Paused,
            PlaybackState::Loading => OsPlayback::Paused,
            PlaybackState::Stopped => OsPlayback::Stopped,
        },
{
    match state {
        PlaybackState::Playing => OsPlayback::Playing,
        PlaybackState::Paused => OsPlayback::Paused,
        PlaybackState::Loading => OsPlayback::Paused,
        PlaybackState::Stopped => OsPlayback::Stopped,
    }
}

/// A media key or media-session request.
pub enum MediaKey {
    Toggle,
    Play,
    Pause,
    Next,
    Previous,
    Stop,
    Other,
}

/// What the player does for a media key.
#[derive(PartialEq, Eq, Structural)]
pub enum MediaAction {
    TogglePlayback,
    Next,
    Previous,
    Stop,
    Ignore,
}

/// Play, pause and toggle all toggle playback; next, previous and stop map
/// to themselves; anything else is ignored.
pub fn media_action(key: MediaKey) -> (r: MediaAction)
    ensures
        r == match key {
            MediaKey::Toggle | MediaKey::Play | MediaKey::Pause => MediaAction::TogglePlayback,
            MediaKey::Next => MediaAction::Next,
            MediaKey::Previous => MediaAction::Previous,
            MediaKey::Stop => MediaAction::Stop,
            MediaKey::Other => MediaAction::Ignore,
        },
{
    match key {
        MediaKey::Toggle => MediaAction::TogglePlayback,
        MediaKey::Play => MediaAction::TogglePlayback,
        MediaKey::Pause => MediaAction::TogglePlayback,
        MediaKey::Next => MediaAction::Next,
        MediaKey::Previous => MediaAction::Previous,
        MediaKey::Stop => MediaAction::Stop,
        MediaKey::Other => MediaAction::Ignore,
    }
}

/// The media-session metadata that is known: a cover URL only when there is
/// one, a duration only when positive.
pub fn media_metadata(cover: &String, duration_ms: u64) -> (r: (Option<String>, Option<u64>))
    ensures
        r.0 == if cover@.len() > 0 {
            Some(*cover)
        } else {
            None
        },
        r.1 == if duration_ms > 0 {
            Some(duration_ms)
        } else {
            None
        },
{
    (if cover.as_str().unicode_len() > 0 {
        Some(cover.clone())
    } else {
        None
    }, if duration_ms > 0 {
        Some(duration_ms)
    } else {
        None
    })
}

} // verus!
