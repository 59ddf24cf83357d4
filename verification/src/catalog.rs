//! Catalog entries as YouTube Music describes them, and their conversion to
//! Rift's own tracks, album and artist summaries, with the one rule that
//! decides which entries count as audio tracks.

use vstd::prelude::*;

use crate::model::{AlbumPage, AlbumSummary, ArtistPage, ArtistRef, ArtistSummary, Track};
use crate::text::{chars_of, contains_seq, joined, occurs_in, views};

verus! {

broadcast use vstd::string::group_string_axioms;

/// Upper bound on tracks pulled when importing a playlist or loading an
/// artist's full catalog.
pub const MAX_FETCH_TRACKS: usize = 1000;

/// Width, in pixels, a thumbnail should reach to look crisp in headers.
pub const THUMB_TARGET: u32 = 512;

/// One size of an image.
pub struct Thumbnail {
    pub url: String,
    pub width: u32,
}

/// An artist credit as the catalog gives it.
pub struct ArtistId {
    /// Channel ID; `None` for credits that link nowhere.
    pub id: Option<String>,
    pub name: String,
}

/// An album reference on a track.
pub struct AlbumId {
    pub id: String,
    pub name: String,
}

/// A track entry of a search, album, playlist or artist listing.
pub struct TrackItem {
    pub id: String,
    pub name: String,
    /// Duration in seconds, if the listing carries it.
    pub duration: Option<u32>,
    pub cover: Vec<Thumbnail>,
    pub artists: Vec<ArtistId>,
    pub album: Option<AlbumId>,
    /// Typed as a plain song (not a music video or podcast episode).
    pub is_track: bool,
}

/// The kind of an album release.
pub enum AlbumKind {
    Album,
    Ep,
    Single,
    /// Any other kind, by its name.
    Other(String),
}

/// An album entry of a search result or artist page.
pub struct AlbumItem {
    pub id: String,
    pub name: String,
    pub cover: Vec<Thumbnail>,
    pub artists: Vec<ArtistId>,
    pub artist_id: Option<String>,
    pub album_type: AlbumKind,
    pub year: Option<u16>,
}

/// An artist entry of a search result.
pub struct ArtistItem {
    pub id: String,
    pub name: String,
    pub avatar: Vec<Thumbnail>,
    pub subscriber_count: Option<u64>,
}

/// `i` is the first of the thumbnails at least [`THUMB_TARGET`] wide with
/// the smallest width.
pub open spec fn smallest_wide(s: Seq<Thumbnail>, i: int) -> bool {
    &&& 0 <= i < s.len()
    &&& s[i].width >= THUMB_TARGET
    &&& forall|j: int| 0 <= j < s.len() && (#[trigger] s[j]).width >= THUMB_TARGET ==> s[i].width <= s[j].width
    &&& forall|j: int| 0 <= j < i && (#[trigger] s[j]).width >= THUMB_TARGET ==> s[i].width < s[j].width
}

/// `i` is the last of the widest thumbnails.
pub open spec fn widest_last(s: Seq<Thumbnail>, i: int) -> bool {
    &&& 0 <= i < s.len()
    &&& forall|j: int| 0 <= j < s.len() ==> (#[trigger] s[j]).width <= s[i].width
    &&& forall|j: int| i < j < s.len() ==> (#[trigger] s[j]).width < s[i].width
}

/// Which thumbnail to show: the smallest one at least [`THUMB_TARGET`] wide
/// (the first such on ties), else the widest (the last such on ties); none
/// when there are no thumbnails.
pub open spec fn chosen_thumb(s: Seq<Thumbnail>) -> Option<int> {
    if exists|i: int| smallest_wide(s, i) {
        Some(choose|i: int| smallest_wide(s, i))
    } else if exists|i: int| widest_last(s, i) {
        Some(choose|i: int| widest_last(s, i))
    } else {
        None
    }
}

proof fn lemma_chosen_thumb(s: Seq<Thumbnail>, wide: Option<int>, widest: int)
    requires
        s.len() > 0,
        match wide {
            Some(i) => smallest_wide(s, i),
            None => forall|j: int| 0 <= j < s.len() ==> (#[trigger] s[j]).width < THUMB_TARGET,
        },
        widest_last(s, widest),
    ensures
        chosen_thumb(s) == Some(if wide is Some { wide->0 } else { widest }),
{
    match wide {
        Some(i) => {
            let c = choose|c: int| smallest_wide(s, c);
            assert(smallest_wide(s, c));
            if c < i {
                assert(s[i].width < s[c].width);
            }
            if i < c {
                assert(s[c].width < s[i].width);
            }
        },
        None => {
            assert(!exists|i: int| smallest_wide(s, i));
            let c = choose|c: int| widest_last(s, c);
            assert(widest_last(s, c));
            if c < widest {
                assert(s[widest].width < s[c].width);
            }
            if widest < c {
                assert(s[c].width < s[widest].width);
            }
        },
    }
}

/// The URL of the thumbnail to show (see [`chosen_thumb`]), empty when there
/// is none.
pub fn thumb(thumbs: &Vec<Thumbnail>) -> (r: String)
    ensures
        r@ == match chosen_thumb(thumbs@) {
            Some(i) => thumbs@[i].url@,
            None => Seq::empty(),
        },
{
    if thumbs.len() == 0 {
        assert(!exists|i: int| smallest_wide(thumbs@, i));
        assert(!exists|i: int| widest_last(thumbs@, i));
        return String::new();
    }
    let mut wide: Option<usize> = None;
    let mut widest: usize = 0;
    let mut k: usize = 1;
    if thumbs[0].width >= THUMB_TARGET {
        wide = Some(0);
    }
    while k < thumbs.len()
        invariant
            1 <= k <= thumbs@.len(),
            widest < k,
            forall|j: int| 0 <= j < k ==> (#[trigger] thumbs@[j]).width <= thumbs@[widest as int].width,
            forall|j: int| widest < j < k ==> (#[trigger] thumbs@[j]).width < thumbs@[widest as int].width,
            match wide {
                Some(i) => i < k && thumbs@[i as int].width >= THUMB_TARGET && (forall|j: int|
                    0 <= j < k && (#[trigger] thumbs@[j]).width >= THUMB_TARGET ==> thumbs@[i as int].width
                        <= thumbs@[j].width) && (forall|j: int|
                    0 <= j < i && (#[trigger] thumbs@[j]).width >= THUMB_TARGET ==> thumbs@[i as int].width
                        < thumbs@[j].width),
                None => forall|j: int| 0 <= j < k ==> (#[trigger] thumbs@[j]).width < THUMB_TARGET,
            },
        decreases thumbs.len() - k,
    {
        let w = thumbs[k].width;
        if w >= thumbs[widest].width {
            widest = k;
        }
        if w >= THUMB_TARGET {
            match wide {
                Some(i) => {
                    if w < thumbs[i].width {
                        wide = Some(k);
                    }
                },
                None => {
                    wide = Some(k);
                },
            }
        }
        k = k + 1;
    }
    let pick = match wide {
        Some(i) => i,
        None => widest,
    };
    proof {
        let w: Option<int> = match wide {
            Some(i) => Some(i as int),
            None => None,
        };
        lemma_chosen_thumb(thumbs@, w, widest as int);
    }
    thumbs[pick].url.clone()
}

/// The names of `artists`.
pub open spec fn artist_names(artists: Seq<ArtistId>) -> Seq<Seq<char>> {
    artists.map_values(|a: ArtistId| a.name@)
}

/// All artist names joined with ", ", or `Unknown Artist` when that is empty.
pub open spec fn artist_line(artists: Seq<ArtistId>) -> Seq<char> {
    let j = joined(artist_names(artists), ", "@);
    if j.len() == 0 {
        "Unknown Artist"@
    } else {
        j
    }
}

/// The artist line shown for a credit list (see [`artist_line`]).
pub fn join_artists(artists: &Vec<ArtistId>) -> (r: String)
    ensures
        r@ == artist_line(artists@),
{
    let mut out = String::new();
    let mut i: usize = 0;
    while i < artists.len()
        invariant
            i <= artists@.len(),
            out@ == joined(artist_names(artists@).take(i as int), ", "@),
        decreases artists.len() - i,
    {
        let ghost before = artist_names(artists@).take(i as int);
        let ghost after = artist_names(artists@).take(i + 1);
        proof {
            assert(after.drop_last() =~= before);
            assert(after.last() == artists@[i as int].name@);
        }
        if i > 0 {
            out.append(", ");
        } else {
            assert(after =~= seq![artists@[0].name@]);
        }
        out.append(artists[i].name.as_str());
        i = i + 1;
    }
    proof {
        assert(artist_names(artists@).take(artists@.len() as int) =~= artist_names(artists@));
    }
    if out.as_str().unicode_len() == 0 {
        "Unknown Artist".to_string()
    } else {
        out
    }
}

/// The label shown for an album kind.
pub open spec fn kind_label(t: AlbumKind) -> Seq<char> {
    match t {
        AlbumKind::Album => "Album"@,
        AlbumKind::Ep => "EP"@,
        AlbumKind::Single => "Single"@,
        AlbumKind::Other(name) => name@,
    }
}

/// "Album", "EP", "Single", or the kind's own name for any other.
pub fn album_type_label(t: AlbumKind) -> (r: String)
    ensures
        r@ == kind_label(t),
{
    match t {
        AlbumKind::Album => "Album".to_string(),
        AlbumKind::Ep => "EP".to_string(),
        AlbumKind::Single => "Single".to_string(),
        AlbumKind::Other(name) => name,
    }
}

/// The credit an artist entry becomes.
pub open spec fn artist_ref_of(a: ArtistId) -> ArtistRef {
    ArtistRef { id: a.id, name: a.name }
}

/// Each credit as a linkable artist reference.
pub fn convert_artists(artists: &Vec<ArtistId>) -> (r: Vec<ArtistRef>)
    ensures
        r@ == artists@.map_values(|a: ArtistId| artist_ref_of(a)),
{
    let mut out: Vec<ArtistRef> = Vec::new();
    let mut i: usize = 0;
    while i < artists.len()
        invariant
            i <= artists@.len(),
            out@ == artists@.take(i as int).map_values(|a: ArtistId| artist_ref_of(a)),
        decreases artists.len() - i,
    {
        out.push(ArtistRef { id: artists[i].id.clone(), name: artists[i].name.clone() });
        proof {
            assert(artists@.take(i + 1).map_values(|a: ArtistId| artist_ref_of(a)) =~= artists@.take(
                i as int,
            ).map_values(|a: ArtistId| artist_ref_of(a)).push(artist_ref_of(artists@[i as int])));
        }
        i = i + 1;
    }
    proof {
        assert(artists@.take(artists@.len() as int) =~= artists@);
    }
    out
}

/// What std's `str::to_lowercase` returns for `s`: its lowercase equivalent
/// under Unicode's case mapping.
pub uninterp spec fn lowercase(s: Seq<char>) -> Seq<char>;

/// `c` lowercased the ASCII way: `A`..`Z` become `a`..`z`, anything else
/// stays.
pub open spec fn ascii_lower(c: char) -> char {
    if 'A' <= c <= 'Z' {
        ((c as u32) + 32) as char
    } else {
        c
    }
}

/// Calls `str::to_lowercase`. Its result is named [`lowercase`]; the contract
/// adds only what Unicode's case mapping gives on ASCII text: there each
/// capital letter becomes its small letter and every other character stays.
#[verifier::external_body]
fn to_lowercase(s: &str) -> (r: String)
    ensures
        r@ == lowercase(s@),
        (forall|k: int| 0 <= k < s@.len() ==> (#[trigger] s@[k] as u32) < 0x80) ==> r@ == s@.map_values(
            |c: char| ascii_lower(c),
        ),
{
    s.to_lowercase()
}

/// The phrases that mark a music-video upload.
pub open spec fn video_marker(m: Seq<char>) -> bool {
    ||| m == "official video"@
    ||| m == "music video"@
    ||| m == "official hd video"@
    ||| m == "official 4k video"@
    ||| m == "video clip"@
}

/// `text` contains one of the music-video marker phrases.
pub open spec fn has_video_marker(text: Seq<char>) -> bool {
    exists|m: Seq<char>| video_marker(m) && #[trigger] occurs_in(text, m)
}

/// The lowercased title contains one of the music-video marker phrases.
pub open spec fn video_titled(title: Seq<char>) -> bool {
    has_video_marker(lowercase(title))
}

/// Whether already-lowercased text contains a music-video marker phrase.
pub fn contains_video_marker(lower: &str) -> (r: bool)
    ensures
        r == has_video_marker(lower@),
{
    let t = chars_of(lower);
    let markers = [
        "official video",
        "music video",
        "official hd video",
        "official 4k video",
        "video clip",
    ];
    let mut i: usize = 0;
    while i < 5
        invariant
            i <= 5,
            t@ == lower@,
            markers@ == seq![
                "official video",
                "music video",
                "official hd video",
                "official 4k video",
                "video clip",
            ],
            forall|j: int| 0 <= j < i ==> !occurs_in(t@, (#[trigger] markers@[j])@),
        decreases 5 - i,
    {
        let m = chars_of(markers[i]);
        if contains_seq(&t, &m) {
            assert(video_marker(markers@[i as int]@));
            return true;
        }
        i = i + 1;
    }
    proof {
        assert forall|m: Seq<char>| video_marker(m) implies !#[trigger] occurs_in(lower@, m) by {
            if m == "official video"@ {
                assert(markers@[0]@ == m);
            } else if m == "music video"@ {
                assert(markers@[1]@ == m);
            } else if m == "official hd video"@ {
                assert(markers@[2]@ == m);
            } else if m == "official 4k video"@ {
                assert(markers@[3]@ == m);
            } else {
                assert(markers@[4]@ == m);
            }
        }
    }
    false
}

/// Heuristic: the title reads like a music-video upload rather than an
/// audio track. Matches specific phrases (not the bare word "video"), so a
/// song named "Video Games" is kept, and audio-leaning variants ("official
/// audio", "lyric video", "visualizer") are not matched.
pub fn looks_like_video_title(title: &str) -> (r: bool)
    ensures
        r == video_titled(title@),
{
    let lower = to_lowercase(title);
    contains_video_marker(lower.as_str())
}

/// An entry counts as an audio track: typed as a song and not titled as a
/// music-video upload.
pub open spec fn audio_track(t: TrackItem) -> bool {
    t.is_track && !video_titled(t.name@)
}

/// Keep only audio tracks: drops music videos and podcast episodes by type,
/// and "Official Video" uploads that slip through typed as songs.
pub fn is_audio_track(t: &TrackItem) -> (r: bool)
    ensures
        r == audio_track(*t),
{
    t.is_track && !looks_like_video_title(t.name.as_str())
}

/// The URL `thumb` picks for `s` (see [`chosen_thumb`]).
pub open spec fn thumb_url(s: Seq<Thumbnail>) -> Seq<char> {
    match chosen_thumb(s) {
        Some(i) => s[i].url@,
        None => Seq::empty(),
    }
}

/// The album name of an optional album reference.
pub open spec fn album_name(a: Option<AlbumId>) -> Option<String> {
    match a {
        Some(x) => Some(x.name),
        None => None,
    }
}

/// The album ID of an optional album reference.
pub open spec fn album_browse_id(a: Option<AlbumId>) -> Option<String> {
    match a {
        Some(x) => Some(x.id),
        None => None,
    }
}

/// `t` is the track the catalog entry `item` becomes: same ID, title,
/// duration and album; the joined artist line, the chosen cover, and one
/// linkable credit per artist.
pub open spec fn converts_to(item: TrackItem, t: Track) -> bool {
    &&& t.id == item.id
    &&& t.title == item.name
    &&& t.artist@ == artist_line(item.artists@)
    &&& t.album == album_name(item.album)
    &&& t.album_id == album_browse_id(item.album)
    &&& t.duration == item.duration
    &&& t.cover@ == thumb_url(item.cover@)
    &&& t.artists@ == item.artists@.map_values(|a: ArtistId| artist_ref_of(a))
}

/// The track a catalog entry becomes (see [`converts_to`]).
pub fn convert(item: TrackItem) -> (r: Track)
    ensures
        converts_to(item, r),
{
    let artist = join_artists(&item.artists);
    let artists = convert_artists(&item.artists);
    let cover = thumb(&item.cover);
    let (album, album_id) = match item.album {
        Some(a) => (Some(a.name), Some(a.id)),
        None => (None, None),
    };
    Track { id: item.id, title: item.name, artist, album, duration: item.duration, cover, artists, album_id }
}

/// The artist ID of the first credit that links somewhere.
pub open spec fn first_linked(artists: Seq<ArtistId>) -> Option<String>
    decreases artists.len(),
{
    if artists.len() == 0 {
        None
    } else if artists[0].id is Some {
        artists[0].id
    } else {
        first_linked(artists.drop_first())
    }
}

fn find_linked(artists: &Vec<ArtistId>) -> (r: Option<String>)
    ensures
        r == first_linked(artists@),
{
    let mut i: usize = 0;
    assert(artists@.skip(0) =~= artists@);
    while i < artists.len()
        invariant
            i <= artists@.len(),
            first_linked(artists@) == first_linked(artists@.skip(i as int)),
        decreases artists.len() - i,
    {
        proof {
            assert(artists@.skip(i as int).drop_first() =~= artists@.skip(i + 1));
        }
        if artists[i].id.is_some() {
            return artists[i].id.clone();
        }
        i = i + 1;
    }
    None
}

/// An album's artist ID: its own, else that of its first linkable credit.
pub open spec fn album_artist_id(own: Option<String>, artists: Seq<ArtistId>) -> Option<String> {
    match own {
        Some(x) => Some(x),
        None => first_linked(artists),
    }
}

/// The album summary an album entry becomes.
pub fn convert_album_item(item: AlbumItem) -> (r: AlbumSummary)
    ensures
        r.id == item.id,
        r.name == item.name,
        r.cover@ == thumb_url(item.cover@),
        r.artist@ == artist_line(item.artists@),
        r.artist_id == album_artist_id(item.artist_id, item.artists@),
        r.year == item.year,
        r.album_type@ == kind_label(item.album_type),
{
    let artist = join_artists(&item.artists);
    let artist_id = match item.artist_id {
        Some(x) => Some(x),
        None => find_linked(&item.artists),
    };
    let cover = thumb(&item.cover);
    AlbumSummary {
        id: item.id,
        name: item.name,
        cover,
        artist,
        artist_id,
        year: item.year,
        album_type: album_type_label(item.album_type),
    }
}

/// The artist summary a search entry becomes.
pub fn convert_artist_item(item: ArtistItem) -> (r: ArtistSummary)
    ensures
        r.id == item.id,
        r.name == item.name,
        r.avatar@ == thumb_url(item.avatar@),
        r.subscribers == item.subscriber_count,
{
    let avatar = thumb(&item.avatar);
    ArtistSummary { id: item.id, name: item.name, avatar, subscribers: item.subscriber_count }
}

/// The audio tracks among `items`, in order.
pub open spec fn audio_items(items: Seq<TrackItem>) -> Seq<TrackItem> {
    items.filter(|t: TrackItem| audio_track(t))
}

/// The audio tracks among `items`, converted, in order: the shared rule for
/// search results, imported playlists and artist listings.
pub fn audio_tracks(items: Vec<TrackItem>) -> (r: Vec<Track>)
    ensures
        r@.len() == audio_items(items@).len(),
        forall|k: int| 0 <= k < r@.len() ==> converts_to(audio_items(items@)[k], #[trigger] r@[k]),
{
    let ghost all = items@;
    let mut out: Vec<Track> = Vec::new();
    for item in it: items
        invariant
            it.seq() == all,
            out@.len() == audio_items(all.take(it.index())).len(),
            forall|k: int| 0 <= k < out@.len() ==> converts_to(audio_items(all.take(it.index()))[k], #[trigger] out@[k]),
    {
        let ghost idx = it.index();
        let ghost iv = item;
        proof {
            assert(all.take(idx + 1).drop_last() =~= all.take(idx));
            assert(all.take(idx + 1).last() == iv);
            reveal_with_fuel(Seq::<_>::filter, 1);
        }
        if is_audio_track(&item) {
            out.push(convert(item));
        }
        proof {
            assert(audio_items(all.take(idx + 1)) == if audio_track(iv) {
                audio_items(all.take(idx)).push(iv)
            } else {
                audio_items(all.take(idx))
            });
        }
    }
    proof {
        assert(all.take(all.len() as int) =~= all);
    }
    out
}

/// A full album listing.
pub struct AlbumDetails {
    pub id: String,
    pub name: String,
    pub cover: Vec<Thumbnail>,
    pub artists: Vec<ArtistId>,
    pub artist_id: Option<String>,
    /// A various-artists compilation.
    pub by_va: bool,
    pub year: Option<u16>,
    pub album_type: AlbumKind,
    pub tracks: Vec<TrackItem>,
}

/// `t` is the album track that `item` of `album` becomes: converted, with
/// what the item omits inherited from the album: the cover when it has none,
/// the album's credits when it has none (unless the album is a
/// various-artists compilation), and the album itself when it names none.
pub open spec fn album_track_of(album: AlbumDetails, item: TrackItem, t: Track) -> bool {
    &&& t.id == item.id
    &&& t.title == item.name
    &&& t.duration == item.duration
    &&& t.cover@ == if thumb_url(item.cover@).len() == 0 {
        thumb_url(album.cover@)
    } else {
        thumb_url(item.cover@)
    }
    &&& if item.artists@.len() == 0 && !album.by_va {
        &&& t.artist@ == artist_line(album.artists@)
        &&& t.artists@ == album.artists@.map_values(|a: ArtistId| artist_ref_of(a))
    } else {
        &&& t.artist@ == artist_line(item.artists@)
        &&& t.artists@ == item.artists@.map_values(|a: ArtistId| artist_ref_of(a))
    }
    &&& if item.album is None {
        t.album == Some(album.name) && t.album_id == Some(album.id)
    } else {
        t.album == album_name(item.album) && t.album_id == album_browse_id(item.album)
    }
}

/// The album page for a full album listing: its summary fields, and every
/// track converted with what it omits inherited from the album.
pub fn album_page(album: AlbumDetails) -> (r: AlbumPage)
    ensures
        r.id == album.id,
        r.name == album.name,
        r.cover@ == thumb_url(album.cover@),
        r.artist@ == artist_line(album.artists@),
        r.artist_id == album_artist_id(album.artist_id, album.artists@),
        r.year == album.year,
        r.album_type@ == kind_label(album.album_type),
        r.tracks@.len() == album.tracks@.len(),
        forall|k: int| 0 <= k < r.tracks@.len() ==> album_track_of(album, album.tracks@[k], #[trigger] r.tracks@[k]),
{
    let ghost whole = album;
    let cover = thumb(&album.cover);
    let album_artist = join_artists(&album.artists);
    let artist_id = match &album.artist_id {
        Some(x) => Some(x.clone()),
        None => find_linked(&album.artists),
    };
    let mut tracks: Vec<Track> = Vec::new();
    let mut i: usize = 0;
    while i < album.tracks.len()
        invariant
            whole == album,
            i <= album.tracks@.len(),
            cover@ == thumb_url(album.cover@),
            album_artist@ == artist_line(album.artists@),
            tracks@.len() == i,
            forall|k: int| 0 <= k < i ==> album_track_of(whole, album.tracks@[k], #[trigger] tracks@[k]),
        decreases album.tracks.len() - i,
    {
        let item = &album.tracks[i];
        let artist = join_artists(&item.artists);
        let artists = convert_artists(&item.artists);
        let own_cover = thumb(&item.cover);
        let mut t = Track {
            id: item.id.clone(),
            title: item.name.clone(),
            artist,
            album: None,
            duration: item.duration,
            cover: own_cover,
            artists,
            album_id: None,
        };
        if t.cover.as_str().unicode_len() == 0 {
            t.cover = cover.clone();
        }
        if t.artists.len() == 0 && !album.by_va {
            t.artist = album_artist.clone();
            t.artists = convert_artists(&album.artists);
        }
        match &item.album {
            Some(a) => {
                t.album = Some(a.name.clone());
                t.album_id = Some(a.id.clone());
            },
            None => {
                t.album = Some(album.name.clone());
                t.album_id = Some(album.id.clone());
            },
        }
        tracks.push(t);
        i = i + 1;
    }
    AlbumPage {
        id: album.id,
        name: album.name,
        cover,
        artist: album_artist,
        artist_id,
        year: album.year,
        album_type: album_type_label(album.album_type),
        tracks,
    }
}

/// `r` is the album summary `item` becomes (see [`convert_album_item`]).
pub open spec fn summarizes(item: AlbumItem, r: AlbumSummary) -> bool {
    &&& r.id == item.id
    &&& r.name == item.name
    &&& r.cover@ == thumb_url(item.cover@)
    &&& r.artist@ == artist_line(item.artists@)
    &&& r.artist_id == album_artist_id(item.artist_id, item.artists@)
    &&& r.year == item.year
    &&& r.album_type@ == kind_label(item.album_type)
}

/// Each album entry as a summary, in order.
pub fn convert_album_items(items: Vec<AlbumItem>) -> (r: Vec<AlbumSummary>)
    ensures
        r@.len() == items@.len(),
        forall|k: int| 0 <= k < r@.len() ==> summarizes(items@[k], #[trigger] r@[k]),
{
    let ghost all = items@;
    let mut out: Vec<AlbumSummary> = Vec::new();
    for item in it: items
        invariant
            it.seq() == all,
            out@.len() == it.index(),
            forall|k: int| 0 <= k < out@.len() ==> summarizes(all[k], #[trigger] out@[k]),
    {
        out.push(convert_album_item(item));
    }
    out
}

/// An artist profile as the catalog gives it.
pub struct ArtistDetails {
    pub id: String,
    pub name: String,
    pub header_image: Vec<Thumbnail>,
    pub description: Option<String>,
    pub subscriber_count: Option<u64>,
    /// The artist's top tracks.
    pub tracks: Vec<TrackItem>,
    pub albums: Vec<AlbumItem>,
    /// Playlist backing the artist's full song catalog, if one exists.
    pub tracks_playlist_id: Option<String>,
}

/// The duration the last entry of `s` with ID `id` and a known duration
/// carries, if any (what a map built from `s` in order finds for `id`).
pub open spec fn last_duration(s: Seq<TrackItem>, id: Seq<char>) -> Option<u32>
    decreases s.len(),
{
    if s.len() == 0 {
        None
    } else if s.last().id@ == id && s.last().duration is Some {
        s.last().duration
    } else {
        last_duration(s.drop_last(), id)
    }
}

fn find_last_duration(s: &Vec<TrackItem>, id: &String) -> (r: Option<u32>)
    ensures
        r == last_duration(s@, id@),
{
    let mut k: usize = s.len();
    assert(s@.take(s@.len() as int) =~= s@);
    while k > 0
        invariant
            k <= s@.len(),
            last_duration(s@, id@) == last_duration(s@.take(k as int), id@),
        decreases k,
    {
        let ghost pre = s@.take(k as int);
        proof {
            assert(pre.drop_last() =~= s@.take(k - 1));
            assert(pre.last() == s@[k - 1]);
        }
        if s[k - 1].id == *id && s[k - 1].duration.is_some() {
            return s[k - 1].duration;
        }
        k = k - 1;
    }
    None
}

/// `d` with a missing duration taken from `source` (see [`last_duration`]).
pub open spec fn with_duration(d: crate::model::TrackData, source: Seq<TrackItem>) -> crate::model::TrackData {
    if d.duration is None {
        crate::model::TrackData { duration: last_duration(source, d.id@), ..d }
    } else {
        d
    }
}

/// Fill in the durations `tracks` lack from `source`, a listing that carries
/// them (an artist's catalog playlist): a track without one takes the last
/// known duration `source` gives for its ID, if any.
pub fn backfill_durations(tracks: &mut Vec<Track>, source: &Vec<TrackItem>)
    ensures
        final(tracks)@.len() == old(tracks)@.len(),
        forall|k: int| 0 <= k < final(tracks)@.len() ==> (#[trigger] final(tracks)@[k])@ == with_duration(old(tracks)@[k]@, source@),
{
    let mut items: Vec<Track> = Vec::new();
    std::mem::swap(tracks, &mut items);
    let ghost all = items@;
    for t in it: items
        invariant
            it.seq() == all,
            tracks@.len() == it.index(),
            forall|k: int| 0 <= k < tracks@.len() ==> (#[trigger] tracks@[k])@ == with_duration(all[k]@, source@),
    {
        let mut t = t;
        if t.duration.is_none() {
            t.duration = find_last_duration(source, &t.id);
        }
        tracks.push(t);
    }
}

/// Whether the artist page needs the catalog playlist for durations: some
/// top track that counts as audio lacks one, and the catalog exists.
pub fn needs_catalog_durations(artist: &ArtistDetails) -> (r: bool)
    ensures
        r == (artist.tracks_playlist_id is Some && exists|k: int|
            0 <= k < audio_items(artist.tracks@).len() && (#[trigger] audio_items(artist.tracks@)[k]).duration is None),
{
    if artist.tracks_playlist_id.is_none() {
        return false;
    }
    let ghost all = artist.tracks@;
    let mut i: usize = 0;
    while i < artist.tracks.len()
        invariant
            i <= all.len(),
            all == artist.tracks@,
            artist.tracks_playlist_id is Some,
            forall|k: int| 0 <= k < audio_items(all.take(i as int)).len() ==> (#[trigger] audio_items(all.take(i as int))[k]).duration is Some,
        decreases artist.tracks.len() - i,
    {
        let item = &artist.tracks[i];
        proof {
            lemma_audio_items_step(all, i as int);
        }
        if is_audio_track(item) && item.duration.is_none() {
            proof {
                lemma_audio_items_prefix(all, i as int + 1);
                let n = audio_items(all.take(i + 1)).len() - 1;
                assert(audio_items(all.take(i + 1))[n] == all[i as int]);
                assert(audio_items(all)[n] == all[i as int]);
                assert(audio_items(artist.tracks@)[n].duration is None);
            }
            return true;
        }
        i = i + 1;
    }
    proof {
        assert(all.take(all.len() as int) =~= all);
    }
    false
}

proof fn lemma_audio_items_step(s: Seq<TrackItem>, n: int)
    requires
        0 <= n < s.len(),
    ensures
        audio_items(s.take(n + 1)) == if audio_track(s[n]) {
            audio_items(s.take(n)).push(s[n])
        } else {
            audio_items(s.take(n))
        },
{
    assert(s.take(n + 1).drop_last() =~= s.take(n));
    assert(s.take(n + 1).last() == s[n]);
    reveal_with_fuel(Seq::<_>::filter, 1);
}

proof fn lemma_audio_items_prefix(s: Seq<TrackItem>, n: int)
    requires
        0 <= n <= s.len(),
    ensures
        audio_items(s.take(n)).len() <= audio_items(s).len(),
        forall|k: int| 0 <= k < audio_items(s.take(n)).len() ==> audio_items(s)[k] == #[trigger] audio_items(s.take(n))[k],
    decreases s.len() - n,
{
    if n < s.len() {
        lemma_audio_items_prefix(s, n + 1);
        lemma_audio_items_step(s, n);
        let a = audio_items(s.take(n));
        let b = audio_items(s.take(n + 1));
        assert forall|k: int| 0 <= k < a.len() implies audio_items(s)[k] == #[trigger] a[k] by {
            assert(b[k] == a[k]);
        }
    } else {
        assert(s.take(n) =~= s);
    }
}

/// The duration a converted track ends with: its own, or when it has none
/// and the catalog entries `source` were fetched, the last one they give.
pub open spec fn filled_duration(item: TrackItem, source: Option<Vec<TrackItem>>) -> Option<u32> {
    match source {
        Some(c) => if item.duration is None {
            last_duration(c@, item.id@)
        } else {
            item.duration
        },
        None => item.duration,
    }
}

/// The artist page for a profile: its audio top tracks, converted, with
/// missing durations taken from the catalog playlist's entries when those
/// were fetched; and its albums as summaries.
pub fn artist_page(artist: ArtistDetails, catalog: Option<Vec<TrackItem>>) -> (r: ArtistPage)
    ensures
        r.id == artist.id,
        r.name == artist.name,
        r.image@ == thumb_url(artist.header_image@),
        r.description == artist.description,
        r.subscribers == artist.subscriber_count,
        r.tracks_playlist_id == artist.tracks_playlist_id,
        r.tracks@.len() == audio_items(artist.tracks@).len(),
        forall|k: int|
            0 <= k < r.tracks@.len() ==> converts_to(
                audio_items(artist.tracks@)[k],
                Track { duration: audio_items(artist.tracks@)[k].duration, ..#[trigger] r.tracks@[k] },
            ) && r.tracks@[k].duration == filled_duration(audio_items(artist.tracks@)[k], catalog),
        r.albums@.len() == artist.albums@.len(),
        forall|k: int| 0 <= k < r.albums@.len() ==> summarizes(artist.albums@[k], #[trigger] r.albums@[k]),
{
    let ghost items = audio_items(artist.tracks@);
    let image = thumb(&artist.header_image);
    let mut tracks = audio_tracks(artist.tracks);
    let ghost converted = tracks@;
    match &catalog {
        Some(c) => {
            backfill_durations(&mut tracks, c);
        },
        None => {},
    }
    assert forall|k: int|
        0 <= k < tracks@.len() implies converts_to(
            items[k],
            Track { duration: items[k].duration, ..#[trigger] tracks@[k] },
        ) && tracks@[k].duration == filled_duration(items[k], catalog) by {
        assert(converts_to(items[k], converted[k]));
        assert(tracks@[k].artists@ == converted[k].artists@);
    }
    let albums = convert_album_items(artist.albums);
    ArtistPage {
        id: artist.id,
        name: artist.name,
        image,
        description: artist.description,
        subscribers: artist.subscriber_count,
        tracks,
        albums,
        tracks_playlist_id: artist.tracks_playlist_id,
    }
}

/// The album the first of `seed` with ID `id` that names an album names.
pub open spec fn seed_album(seed: Seq<TrackItem>, id: Seq<char>) -> Option<AlbumId>
    decreases seed.len(),
{
    if seed.len() == 0 {
        None
    } else if seed[0].id@ == id && seed[0].album is Some {
        seed[0].album
    } else {
        seed_album(seed.drop_first(), id)
    }
}

/// Name and ID of the first of `albums` that lists a track with ID `id`.
pub open spec fn page_album(albums: Seq<AlbumDetails>, id: Seq<char>) -> Option<(String, String)>
    decreases albums.len(),
{
    if albums.len() == 0 {
        None
    } else if exists|k: int| 0 <= k < albums[0].tracks@.len() && (#[trigger] albums[0].tracks@[k]).id@ == id {
        Some((albums[0].name, albums[0].id))
    } else {
        page_album(albums.drop_first(), id)
    }
}

/// The album a catalog song with ID `id` belongs to: as the artist's top
/// tracks name it, else as the first album page listing it gives it.
pub open spec fn album_of(seed: Seq<TrackItem>, albums: Seq<AlbumDetails>, id: Seq<char>) -> Option<(String, String)> {
    match seed_album(seed, id) {
        Some(a) => Some((a.name, a.id)),
        None => page_album(albums, id),
    }
}

/// `d` with album name and ID set from `found` when it has no album.
pub open spec fn with_album(d: crate::model::TrackData, found: Option<(String, String)>) -> crate::model::TrackData {
    match found {
        Some(f) => if d.album is None {
            crate::model::TrackData { album: Some(f.0), album_id: Some(f.1), ..d }
        } else {
            d
        },
        None => d,
    }
}

fn find_seed_album(seed: &Vec<TrackItem>, id: &String) -> (r: Option<(String, String)>)
    ensures
        r == match seed_album(seed@, id@) {
            Some(a) => Some((a.name, a.id)),
            None => None::<(String, String)>,
        },
{
    let mut i: usize = 0;
    assert(seed@.skip(0) =~= seed@);
    while i < seed.len()
        invariant
            i <= seed@.len(),
            seed_album(seed@, id@) == seed_album(seed@.skip(i as int), id@),
        decreases seed.len() - i,
    {
        proof {
            assert(seed@.skip(i as int).drop_first() =~= seed@.skip(i + 1));
        }
        if seed[i].id == *id {
            match &seed[i].album {
                Some(a) => {
                    return Some((a.name.clone(), a.id.clone()));
                },
                None => {},
            }
        }
        i = i + 1;
    }
    None
}

fn find_page_album(albums: &Vec<AlbumDetails>, id: &String) -> (r: Option<(String, String)>)
    ensures
        r == page_album(albums@, id@),
{
    let mut i: usize = 0;
    assert(albums@.skip(0) =~= albums@);
    while i < albums.len()
        invariant
            i <= albums@.len(),
            page_album(albums@, id@) == page_album(albums@.skip(i as int), id@),
        decreases albums.len() - i,
    {
        proof {
            assert(albums@.skip(i as int).drop_first() =~= albums@.skip(i + 1));
            assert(albums@.skip(i as int)[0] == albums@[i as int]);
        }
        let a = &albums[i];
        let mut k: usize = 0;
        while k < a.tracks.len()
            invariant
                k <= a.tracks@.len(),
                i < albums@.len(),
                *a == albums@[i as int],
                page_album(albums@, id@) == page_album(albums@.skip(i as int), id@),
                albums@.skip(i as int).drop_first() =~= albums@.skip(i + 1),
                albums@.skip(i as int)[0] == albums@[i as int],
                forall|j: int| 0 <= j < k ==> (#[trigger] a.tracks@[j]).id@ != id@,
            decreases a.tracks.len() - k,
        {
            if a.tracks[k].id == *id {
                assert(albums@.skip(i as int)[0].tracks@[k as int].id@ == id@);
                return Some((a.name.clone(), a.id.clone()));
            }
            k = k + 1;
        }
        i = i + 1;
    }
    None
}

/// Give every song of an artist's catalog that lacks an album the one
/// [`album_of`] finds for it: from the artist's top tracks `seed`, else from
/// the fetched album pages `albums` in order.
pub fn fill_missing_albums(songs: &mut Vec<Track>, seed: &Vec<TrackItem>, albums: &Vec<AlbumDetails>)
    ensures
        final(songs)@.len() == old(songs)@.len(),
        forall|k: int|
            0 <= k < final(songs)@.len() ==> (#[trigger] final(songs)@[k])@ == with_album(
                old(songs)@[k]@,
                album_of(seed@, albums@, old(songs)@[k].id@),
            ),
{
    let mut items: Vec<Track> = Vec::new();
    std::mem::swap(songs, &mut items);
    let ghost all = items@;
    for t in it: items
        invariant
            it.seq() == all,
            songs@.len() == it.index(),
            forall|k: int|
                0 <= k < songs@.len() ==> (#[trigger] songs@[k])@ == with_album(
                    all[k]@,
                    album_of(seed@, albums@, all[k].id@),
                ),
    {
        let mut t = t;
        if t.album.is_none() {
            let found = match find_seed_album(seed, &t.id) {
                Some(f) => Some(f),
                None => find_page_album(albums, &t.id),
            };
            match found {
                Some((name, album_id)) => {
                    t.album = Some(name);
                    t.album_id = Some(album_id);
                },
                None => {},
            }
        }
        songs.push(t);
    }
}

/// The IDs of the songs that still lack an album, in order.
pub fn songs_missing_album(songs: &Vec<Track>) -> (r: Vec<String>)
    ensures
        views(r@) == views(songs@.filter(|t: Track| t.album is None).map_values(|t: Track| t.id)),
{
    let ghost pred = |t: Track| t.album is None;
    let mut out: Vec<String> = Vec::new();
    let mut i: usize = 0;
    while i < songs.len()
        invariant
            i <= songs@.len(),
            pred == (|t: Track| t.album is None),
            views(out@) == views(songs@.take(i as int).filter(pred).map_values(|t: Track| t.id)),
        decreases songs.len() - i,
    {
        proof {
            assert(songs@.take(i + 1).drop_last() =~= songs@.take(i as int));
            assert(songs@.take(i + 1).last() == songs@[i as int]);
            reveal_with_fuel(Seq::<_>::filter, 1);
        }
        let ghost before = out@;
        if songs[i].album.is_none() {
            out.push(songs[i].id.clone());
            proof {
                assert(views(out@) =~= views(before).push(songs@[i as int].id@));
                assert(songs@.take(i + 1).filter(pred) == songs@.take(i as int).filter(pred).push(songs@[i as int]));
                assert(songs@.take(i + 1).filter(pred).map_values(|t: Track| t.id) =~= songs@.take(i as int).filter(
                    pred,
                ).map_values(|t: Track| t.id).push(songs@[i as int].id));
            }
        }
        i = i + 1;
    }
    proof {
        assert(songs@.take(songs@.len() as int) =~= songs@);
    }
    out
}

/// `k` is the first song with ID `id` that lacks an album.
pub open spec fn first_unfilled(songs: Seq<Track>, id: Seq<char>, k: int) -> bool {
    &&& 0 <= k < songs.len()
    &&& songs[k].id@ == id && songs[k].album is None
    &&& forall|j: int| 0 <= j < k ==> !((#[trigger] songs[j]).id@ == id && songs[j].album is None)
}

/// `songs` after one looked-up album `(id, name, album_id)`: the first song
/// with that ID still lacking an album takes it; nothing changes when there
/// is none.
pub open spec fn detail_applied(songs: Seq<Track>, f: (String, String, String)) -> Seq<Track> {
    if exists|k: int| first_unfilled(songs, f.0@, k) {
        let k = choose|k: int| first_unfilled(songs, f.0@, k);
        songs.update(k, Track { album: Some(f.1), album_id: Some(f.2), ..songs[k] })
    } else {
        songs
    }
}

/// `songs` after each looked-up album of `found`, in order.
pub open spec fn details_applied(songs: Seq<Track>, found: Seq<(String, String, String)>) -> Seq<Track>
    decreases found.len(),
{
    if found.len() == 0 {
        songs
    } else {
        detail_applied(details_applied(songs, found.drop_last()), found.last())
    }
}

proof fn lemma_first_unfilled_unique(songs: Seq<Track>, id: Seq<char>, a: int, b: int)
    requires
        first_unfilled(songs, id, a),
        first_unfilled(songs, id, b),
    ensures
        a == b,
{
    if a < b {
        assert(!(songs[a].id@ == id && songs[a].album is None));
    }
    if b < a {
        assert(!(songs[b].id@ == id && songs[b].album is None));
    }
}

/// Apply one looked-up album (see [`detail_applied`]).
fn apply_detail(songs: &mut Vec<Track>, f: (String, String, String))
    ensures
        final(songs)@ == detail_applied(old(songs)@, f),
{
    let (id, name, album_id) = f;
    let mut k: usize = 0;
    while k < songs.len()
        invariant
            k <= songs@.len(),
            songs@ == old(songs)@,
            id@ == f.0@,
            name == f.1,
            album_id == f.2,
            forall|j: int| 0 <= j < k ==> !((#[trigger] songs@[j]).id@ == id@ && songs@[j].album is None),
        decreases songs.len() - k,
    {
        if songs[k].id == id && songs[k].album.is_none() {
            let ghost before = songs@;
            proof {
                assert(first_unfilled(before, f.0@, k as int));
                let c = choose|c: int| first_unfilled(before, f.0@, c);
                lemma_first_unfilled_unique(before, f.0@, c, k as int);
            }
            let mut t = songs.remove(k);
            assert(t == before[k as int]);
            t.album = Some(name);
            t.album_id = Some(album_id);
            assert(t == Track { album: Some(f.1), album_id: Some(f.2), ..before[k as int] });
            songs.insert(k, t);
            proof {
                assert forall|j: int| 0 <= j < before.len() implies songs@[j] == before.update(k as int, Track { album: Some(f.1), album_id: Some(f.2), ..before[k as int] })[j] by {
                    if j < k {
                        assert(songs@[j] == before[j]);
                    } else if j > k {
                        assert(songs@[j] == before[j]);
                    }
                }
                assert(songs@ =~= before.update(k as int, Track { album: Some(f.1), album_id: Some(f.2), ..before[k as int] }));
            }
            return;
        }
        k = k + 1;
    }
    proof {
        assert(!exists|c: int| first_unfilled(songs@, f.0@, c));
    }
}

/// Give the songs the albums looked up one by one for those still lacking
/// one: each `(id, name, album_id)`, in order, goes to the first song with
/// that ID that still lacks an album.
pub fn apply_album_details(songs: &mut Vec<Track>, found: Vec<(String, String, String)>)
    ensures
        final(songs)@ == details_applied(old(songs)@, found@),
{
    let ghost all = found@;
    let ghost start = songs@;
    for f in it: found
        invariant
            it.seq() == all,
            songs@ == details_applied(start, all.take(it.index())),
    {
        let ghost idx = it.index();
        proof {
            assert(all.take(idx + 1).drop_last() =~= all.take(idx));
            assert(all.take(idx + 1).last() == f);
        }
        apply_detail(songs, f);
    }
    proof {
        assert(all.take(all.len() as int) =~= all);
    }
}

/// `track` with credits from its details entry `item` (see
/// [`enrich_track`]).
pub open spec fn enriched(track: crate::model::TrackData, item: TrackItem) -> crate::model::TrackData {
    if track.artists.len() > 0 || item.artists@.len() == 0 {
        track
    } else {
        crate::model::TrackData {
            artists: item.artists@.map_values(|a: ArtistId| artist_ref_of(a)),
            album: if track.album_id is None && item.album is Some && track.album is None {
                Some(item.album->0.name)
            } else {
                track.album
            },
            album_id: if track.album_id is None && item.album is Some {
                Some(item.album->0.id)
            } else {
                track.album_id
            },
            ..track
        }
    }
}

/// Backfill per-artist credits (with channel IDs) onto a track saved before
/// they were stored, from the catalog's details entry `item` for it; an
/// album reference is taken along when the track has no album ID. Returns
/// whether anything changed: tracks that already have credits, or whose
/// entry has none, are left untouched.
pub fn enrich_track(track: &mut Track, item: &TrackItem) -> (r: bool)
    ensures
        final(track)@ == enriched(old(track)@, *item),
        r == (old(track).artists@.len() == 0 && item.artists@.len() > 0),
{
    if track.artists.len() > 0 {
        return false;
    }
    let artists = convert_artists(&item.artists);
    if artists.len() == 0 {
        return false;
    }
    track.artists = artists;
    if track.album_id.is_none() {
        match &item.album {
            Some(al) => {
                if track.album.is_none() {
                    track.album = Some(al.name.clone());
                }
                track.album_id = Some(al.id.clone());
            },
            None => {},
        }
    }
    true
}

} // verus!
