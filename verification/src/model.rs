//! Shared data models: tracks, playlists, the library and the status records
//! handed to the user interface.

use vstd::prelude::*;

verus! {

/// A single artist credit on a track.
#[derive(Debug)]
pub struct ArtistRef {
    /// Channel ID, for navigation. `None` for unlinkable credits.
    pub id: Option<String>,
    pub name: String,
}

impl Clone for ArtistRef {
    fn clone(&self) -> (r: Self)
        ensures
            r == *self,
    {
        ArtistRef { id: self.id.clone(), name: self.name.clone() }
    }
}

/// A playable track, normalized from YouTube Music metadata.
#[derive(Debug)]
pub struct Track {
    pub id: String,
    pub title: String,
    /// All artist names joined with ", ".
    pub artist: String,
    pub album: Option<String>,
    /// Duration in seconds, if known.
    pub duration: Option<u32>,
    /// URL of the cover thumbnail (may be empty).
    pub cover: String,
    /// Individual artist credits, each linkable to a profile.
    pub artists: Vec<ArtistRef>,
    /// Album browse ID, for navigation.
    pub album_id: Option<String>,
}

/// What a track holds, with its credits as a sequence: two tracks with the
/// same data are interchangeable.
pub struct TrackData {
    pub id: String,
    pub title: String,
    pub artist: String,
    pub album: Option<String>,
    pub duration: Option<u32>,
    pub cover: String,
    pub artists: Seq<ArtistRef>,
    pub album_id: Option<String>,
}

impl View for Track {
    type V = TrackData;

    open spec fn view(&self) -> TrackData {
        TrackData {
            id: self.id,
            title: self.title,
            artist: self.artist,
            album: self.album,
            duration: self.duration,
            cover: self.cover,
            artists: self.artists@,
            album_id: self.album_id,
        }
    }
}

/// The data of each track in a sequence.
pub open spec fn tracks_data(s: Seq<Track>) -> Seq<TrackData> {
    s.map_values(|t: Track| t@)
}

/// Copy a list of credits element by element.
pub fn clone_artists(v: &Vec<ArtistRef>) -> (r: Vec<ArtistRef>)
    ensures
        r@ == v@,
{
    let mut out: Vec<ArtistRef> = Vec::new();
    let mut i: usize = 0;
    while i < v.len()
        invariant
            i <= v.len(),
            out@ == v@.take(i as int),
        decreases v.len() - i,
    {
        out.push(v[i].clone());
        proof {
            assert(v@.take(i + 1) == v@.take(i as int).push(v@[i as int]));
        }
        i = i + 1;
    }
    proof {
        assert(v@.take(v.len() as int) == v@);
    }
    out
}

impl Clone for Track {
    fn clone(&self) -> (r: Self)
        ensures
            r@ == self@,
    {
        let artists = clone_artists(&self.artists);
        proof {
            assert(artists@ == self.artists@);
        }
        Track {
            id: self.id.clone(),
            title: self.title.clone(),
            artist: self.artist.clone(),
            album: self.album.clone(),
            duration: self.duration,
            cover: self.cover.clone(),
            artists,
            album_id: self.album_id.clone(),
        }
    }
}

/// A user playlist.
#[derive(Debug)]
pub struct Playlist {
    pub id: String,
    pub name: String,
    pub tracks: Vec<Track>,
}

/// What a playlist holds, with its tracks by their data.
pub struct PlaylistData {
    pub id: String,
    pub name: String,
    pub tracks: Seq<TrackData>,
}

impl View for Playlist {
    type V = PlaylistData;

    open spec fn view(&self) -> PlaylistData {
        PlaylistData { id: self.id, name: self.name, tracks: tracks_data(self.tracks@) }
    }
}

/// Copy a list of tracks element by element.
pub fn clone_tracks(v: &Vec<Track>) -> (r: Vec<Track>)
    ensures
        tracks_data(r@) == tracks_data(v@),
{
    let r = v.clone();
    proof {
        assert forall|i: int| 0 <= i < v@.len() implies r@[i]@ == v@[i]@ by {
            assert(cloned::<Track>(v@[i], r@[i]));
        }
        assert(tracks_data(r@) =~= tracks_data(v@));
    }
    r
}

impl Clone for Playlist {
    fn clone(&self) -> (r: Self)
        ensures
            r@ == self@,
    {
        Playlist { id: self.id.clone(), name: self.name.clone(), tracks: clone_tracks(&self.tracks) }
    }
}

/// Everything persisted to disk about the user's collection.
#[derive(Debug)]
pub struct Library {
    pub liked: Vec<Track>,
    pub playlists: Vec<Playlist>,
    pub recently_played: Vec<Track>,
}

impl Default for Library {
    fn default() -> (r: Self)
        ensures
            r.liked@.len() == 0,
            r.playlists@.len() == 0,
            r.recently_played@.len() == 0,
    {
        Library { liked: Vec::new(), playlists: Vec::new(), recently_played: Vec::new() }
    }
}

/// The data of each playlist in a sequence.
pub open spec fn playlists_data(s: Seq<Playlist>) -> Seq<PlaylistData> {
    s.map_values(|p: Playlist| p@)
}

impl Clone for Library {
    fn clone(&self) -> (r: Self)
        ensures
            tracks_data(r.liked@) == tracks_data(self.liked@),
            playlists_data(r.playlists@) == playlists_data(self.playlists@),
            tracks_data(r.recently_played@) == tracks_data(self.recently_played@),
    {
        let playlists = self.playlists.clone();
        proof {
            assert forall|i: int| 0 <= i < self.playlists@.len() implies playlists@[i]@ == self.playlists@[i]@ by {
                assert(cloned::<Playlist>(self.playlists@[i], playlists@[i]));
            }
            assert(playlists_data(playlists@) =~= playlists_data(self.playlists@));
        }
        Library {
            liked: clone_tracks(&self.liked),
            playlists,
            recently_played: clone_tracks(&self.recently_played),
        }
    }
}

/// Repeat behaviour when the queue runs out (or a track ends).
#[derive(Debug, Clone, Copy, PartialEq, Eq, Structural)]
pub enum RepeatMode {
    Off,
    All,
    One,
}

impl Default for RepeatMode {
    fn default() -> (r: Self)
        ensures
            r == RepeatMode::Off,
    {
        RepeatMode::Off
    }
}

/// The next repeat mode in the Off -> All -> One -> Off cycle.
pub open spec fn repeat_after(m: RepeatMode) -> RepeatMode {
    match m {
        RepeatMode::Off => RepeatMode::All,
        RepeatMode::All => RepeatMode::One,
        RepeatMode::One => RepeatMode::Off,
    }
}

impl RepeatMode {
    /// The mode the repeat button moves to next: Off, All, One, then Off again.
    pub fn cycled(self) -> (r: RepeatMode)
        ensures
            r == repeat_after(self),
    {
        match self {
            RepeatMode::Off => RepeatMode::All,
            RepeatMode::All => RepeatMode::One,
            RepeatMode::One => RepeatMode::Off,
        }
    }
}

/// Playback status.
#[derive(Debug, Clone, Copy, PartialEq, Eq, Structural)]
pub enum PlaybackState {
    Stopped,
    /// Stream is being resolved / downloaded.
    Loading,
    Playing,
    Paused,
}

impl Default for PlaybackState {
    fn default() -> (r: Self)
        ensures
            r == PlaybackState::Stopped,
    {
        PlaybackState::Stopped
    }
}

/// Snapshot of the playback queue, sent to the interface on every change and
/// persisted so the session can be restored.
#[derive(Debug)]
pub struct QueueSnapshot {
    pub tracks: Vec<Track>,
    /// Index of the current track in `tracks`, if any.
    pub current: Option<usize>,
    pub shuffle: bool,
    pub repeat: RepeatMode,
    /// Where the queue came from (e.g. "liked", "playlist:<id>").
    pub source: Option<String>,
}

impl Default for QueueSnapshot {
    fn default() -> (r: Self)
        ensures
            r.tracks@.len() == 0,
            r.current is None,
            !r.shuffle,
            r.repeat == RepeatMode::Off,
            r.source is None,
    {
        QueueSnapshot {
            tracks: Vec::new(),
            current: None,
            shuffle: false,
            repeat: RepeatMode::Off,
            source: None,
        }
    }
}

/// Offline-download status.
#[derive(Debug)]
pub struct DownloadState {
    /// Track IDs that are fully downloaded and available offline.
    pub downloaded: Vec<String>,
    /// Track IDs currently being downloaded.
    pub downloading: Vec<String>,
    /// Track IDs whose download was given up on after repeated failures.
    pub failed: Vec<String>,
}

impl Default for DownloadState {
    fn default() -> (r: Self)
        ensures
            r.downloaded@.len() == 0,
            r.downloading@.len() == 0,
            r.failed@.len() == 0,
    {
        DownloadState { downloaded: Vec::new(), downloading: Vec::new(), failed: Vec::new() }
    }
}

/// Result of probing the system for the yt-dlp binary.
#[derive(Debug)]
pub struct YtDlpStatus {
    /// Whether a working yt-dlp was found and ran successfully.
    pub found: bool,
    /// Absolute path resolved, if any.
    pub path: Option<String>,
    /// Version string reported by `yt-dlp --version`, if it ran.
    pub version: Option<String>,
}

/// Result of checking for a newer release.
#[derive(Debug)]
pub struct UpdateStatus {
    /// The running app version (e.g. "0.1.0").
    pub current: String,
    /// Latest published release version, with any leading `v` stripped.
    pub latest: Option<String>,
    /// Whether `latest` is newer than `current`.
    pub update_available: bool,
    /// URL of the latest release page.
    pub url: Option<String>,
}

/// An artist as shown in search results.
#[derive(Debug)]
pub struct ArtistSummary {
    pub id: String,
    pub name: String,
    pub avatar: String,
    pub subscribers: Option<u64>,
}

/// An album as shown in search results and artist pages.
#[derive(Debug)]
pub struct AlbumSummary {
    pub id: String,
    pub name: String,
    pub cover: String,
    pub artist: String,
    pub artist_id: Option<String>,
    pub year: Option<u16>,
    /// "Album", "EP", "Single", ...
    pub album_type: String,
}

/// A full artist profile page.
#[derive(Debug)]
pub struct ArtistPage {
    pub id: String,
    pub name: String,
    pub image: String,
    pub description: Option<String>,
    pub subscribers: Option<u64>,
    /// The artist's most popular tracks.
    pub tracks: Vec<Track>,
    pub albums: Vec<AlbumSummary>,
    /// Playlist ID backing the artist's full song catalog, if one exists.
    pub tracks_playlist_id: Option<String>,
}

/// A full album page.
#[derive(Debug)]
pub struct AlbumPage {
    pub id: String,
    pub name: String,
    pub cover: String,
    pub artist: String,
    pub artist_id: Option<String>,
    pub year: Option<u16>,
    pub album_type: String,
    pub tracks: Vec<Track>,
}

} // verus!
