use rift::catalog::{
    album_page, album_type_label, contains_video_marker, apply_album_details, artist_page, audio_tracks, backfill_durations, convert,
    convert_album_item, convert_artist_item, convert_artists, fill_missing_albums, is_audio_track, join_artists,
    looks_like_video_title, needs_catalog_durations, songs_missing_album, thumb, AlbumDetails, AlbumId, AlbumItem,
    AlbumKind, ArtistDetails, ArtistId, ArtistItem, Thumbnail, TrackItem,
};
use rift::model::Track;

fn flags_cases() {
    for t in [
        "Song Title (Official Video)",
        "Song Title (Official Music Video)",
        "Song Title [Music Video]",
        "Song Title (Official HD Video)",
        "Artist - Song (Video Clip)",
    ] {
        assert!(looks_like_video_title(t), "should flag: {t}");
    }
}

fn keeps_cases() {
    for t in [
        "Video Games",                 // a real song name, not a video upload
        "Song Title (Official Audio)", // audio variant
        "Song Title (Lyric Video)",    // lyric videos are audio-leaning
        "Song Title (Visualizer)",
        "Plain Song Title",
    ] {
        assert!(!looks_like_video_title(t), "should keep: {t}");
    }
}

#[test]
fn commands_flags_official_video_uploads() {
    flags_cases();
}

#[test]
fn convert_flags_official_video_uploads() {
    flags_cases();
}

#[test]
fn commands_keeps_audio_tracks_and_video_named_songs() {
    keeps_cases();
}

#[test]
fn convert_keeps_audio_tracks_and_video_named_songs() {
    keeps_cases();
}

#[test]
fn video_markers_match_in_any_case() {
    assert!(looks_like_video_title("SONG (OFFICIAL 4K VIDEO)"));
    assert!(looks_like_video_title("official video"));
    assert!(!looks_like_video_title("Official"));
}

fn th(url: &str, width: u32) -> Thumbnail {
    Thumbnail { url: url.into(), width }
}

#[test]
fn thumb_prefers_smallest_wide_enough_else_widest() {
    assert_eq!(thumb(&vec![th("a", 120), th("b", 544), th("c", 1200), th("d", 512)]), "d");
    // Ties among the smallest wide enough: the first one.
    assert_eq!(thumb(&vec![th("a", 600), th("b", 600)]), "a");
    // Nothing wide enough: the widest, the last one on ties.
    assert_eq!(thumb(&vec![th("a", 60), th("b", 226), th("c", 226), th("d", 120)]), "c");
    assert_eq!(thumb(&vec![]), "");
}

fn artist(name: &str, id: Option<&str>) -> ArtistId {
    ArtistId { id: id.map(|s| s.to_string()), name: name.into() }
}

#[test]
fn artists_join_with_fallback() {
    assert_eq!(join_artists(&vec![artist("A", None), artist("B", Some("b"))]), "A, B");
    assert_eq!(join_artists(&vec![]), "Unknown Artist");
    assert_eq!(join_artists(&vec![artist("", None)]), "Unknown Artist");
    let refs = convert_artists(&vec![artist("A", Some("ch"))]);
    assert_eq!(refs.len(), 1);
    assert_eq!(refs[0].id.as_deref(), Some("ch"));
    assert_eq!(refs[0].name, "A");
}

#[test]
fn album_kinds_have_labels() {
    assert_eq!(album_type_label(AlbumKind::Album), "Album");
    assert_eq!(album_type_label(AlbumKind::Ep), "EP");
    assert_eq!(album_type_label(AlbumKind::Single), "Single");
    assert_eq!(album_type_label(AlbumKind::Other("Audiobook".into())), "Audiobook");
}

fn item(id: &str, name: &str) -> TrackItem {
    TrackItem {
        id: id.into(),
        name: name.into(),
        duration: None,
        cover: vec![],
        artists: vec![],
        album: None,
        is_track: true,
    }
}

#[test]
fn conversion_carries_every_field() {
    let t = convert(TrackItem {
        id: "v1".into(),
        name: "Song".into(),
        duration: Some(215),
        cover: vec![th("small", 60), th("big", 544)],
        artists: vec![artist("A", Some("a")), artist("B", None)],
        album: Some(AlbumId { id: "al".into(), name: "Record".into() }),
        is_track: true,
    });
    assert_eq!(t.id, "v1");
    assert_eq!(t.title, "Song");
    assert_eq!(t.artist, "A, B");
    assert_eq!(t.artists.len(), 2);
    assert_eq!(t.album.as_deref(), Some("Record"));
    assert_eq!(t.album_id.as_deref(), Some("al"));
    assert_eq!(t.duration, Some(215));
    assert_eq!(t.cover, "big");
    let mut ep = item("e", "Talk");
    ep.is_track = false;
    assert!(!is_audio_track(&ep));
    assert!(is_audio_track(&item("s", "Song")));
}

#[test]
fn audio_tracks_filters_then_converts_in_order() {
    let out = audio_tracks(vec![item("1", "a"), item("2", "b (Official Video)"), item("3", "c")]);
    let ids: Vec<&str> = out.iter().map(|t| t.id.as_str()).collect();
    assert_eq!(ids, vec!["1", "3"]);
}

#[test]
fn album_items_and_artists_summarize() {
    let s = convert_album_item(AlbumItem {
        id: "al".into(),
        name: "Record".into(),
        cover: vec![th("c", 700)],
        artists: vec![artist("A", None), artist("B", Some("b"))],
        artist_id: None,
        album_type: AlbumKind::Ep,
        year: Some(2020),
    });
    assert_eq!(s.artist, "A, B");
    assert_eq!(s.artist_id.as_deref(), Some("b"), "first linkable credit");
    assert_eq!(s.album_type, "EP");
    assert_eq!(s.cover, "c");
    let a = convert_artist_item(ArtistItem {
        id: "x".into(),
        name: "X".into(),
        avatar: vec![th("p", 100)],
        subscriber_count: Some(5),
    });
    assert_eq!(a.avatar, "p");
    assert_eq!(a.subscribers, Some(5));
}

#[test]
fn album_tracks_inherit_cover_artists_and_album() {
    let mut own = item("2", "Two");
    own.cover = vec![th("own", 600)];
    own.artists = vec![artist("Guest", None)];
    own.album = Some(AlbumId { id: "other".into(), name: "Other".into() });
    let page = album_page(AlbumDetails {
        id: "al".into(),
        name: "Record".into(),
        cover: vec![th("alb", 800)],
        artists: vec![artist("Main", Some("m"))],
        artist_id: None,
        by_va: false,
        year: None,
        album_type: AlbumKind::Album,
        tracks: vec![item("1", "One"), own],
    });
    assert_eq!(page.artist_id.as_deref(), Some("m"));
    assert_eq!(page.tracks[0].cover, "alb");
    assert_eq!(page.tracks[0].artist, "Main");
    assert_eq!(page.tracks[0].artists.len(), 1);
    assert_eq!(page.tracks[0].album.as_deref(), Some("Record"));
    assert_eq!(page.tracks[0].album_id.as_deref(), Some("al"));
    assert_eq!(page.tracks[1].cover, "own");
    assert_eq!(page.tracks[1].artist, "Guest");
    assert_eq!(page.tracks[1].album.as_deref(), Some("Other"));
}

#[test]
fn various_artists_albums_do_not_lend_credits() {
    let page = album_page(AlbumDetails {
        id: "al".into(),
        name: "Hits".into(),
        cover: vec![],
        artists: vec![artist("Various Artists", None)],
        artist_id: Some("va".into()),
        by_va: true,
        year: Some(1999),
        album_type: AlbumKind::Album,
        tracks: vec![item("1", "One")],
    });
    assert_eq!(page.tracks[0].artist, "Unknown Artist");
    assert!(page.tracks[0].artists.is_empty());
    assert_eq!(page.artist_id.as_deref(), Some("va"));
}

#[test]
fn artist_durations_are_backfilled_from_the_catalog() {
    let mut with_len = item("b", "B");
    with_len.duration = Some(7);
    let details = ArtistDetails {
        id: "ar".into(),
        name: "Artist".into(),
        header_image: vec![th("h", 1000)],
        description: None,
        subscriber_count: None,
        tracks: vec![item("a", "A"), with_len, item("c", "C (Music Video)")],
        albums: vec![],
        tracks_playlist_id: Some("pl".into()),
    };
    assert!(needs_catalog_durations(&details));
    let mut cat1 = item("a", "A");
    cat1.duration = Some(100);
    let mut cat2 = item("a", "A");
    cat2.duration = Some(200);
    let page = artist_page(details, Some(vec![cat1, item("a", "A"), cat2]));
    assert_eq!(page.tracks.len(), 2);
    assert_eq!(page.tracks[0].duration, Some(200), "the last known duration wins");
    assert_eq!(page.tracks[1].duration, Some(7));
    assert_eq!(page.image, "h");
}

#[test]
fn backfill_leaves_known_and_unmatched_durations() {
    let mut tracks: Vec<Track> = vec![convert(item("x", "X"))];
    backfill_durations(&mut tracks, &vec![item("y", "Y")]);
    assert_eq!(tracks[0].duration, None);
    let mut known = item("x", "X");
    known.duration = Some(3);
    let mut src = item("x", "X");
    src.duration = Some(9);
    let mut tracks: Vec<Track> = vec![convert(known)];
    backfill_durations(&mut tracks, &vec![src]);
    assert_eq!(tracks[0].duration, Some(3));
}

#[test]
fn catalog_songs_get_albums_from_top_tracks_then_pages_then_details() {
    let mut songs = audio_tracks(vec![item("1", "One"), item("2", "Two"), item("3", "Three"), item("4", "Four")]);
    let mut seeded = item("1", "One");
    seeded.album = Some(AlbumId { id: "s".into(), name: "Single".into() });
    let page = AlbumDetails {
        id: "lp".into(),
        name: "LP".into(),
        cover: vec![],
        artists: vec![],
        artist_id: None,
        by_va: false,
        year: None,
        album_type: AlbumKind::Album,
        tracks: vec![item("1", "One"), item("2", "Two")],
    };
    fill_missing_albums(&mut songs, &vec![item("1", "One"), seeded], &vec![page]);
    assert_eq!(songs[0].album.as_deref(), Some("Single"), "top tracks win over album pages");
    assert_eq!(songs[1].album.as_deref(), Some("LP"));
    assert_eq!(songs[1].album_id.as_deref(), Some("lp"));
    assert_eq!(songs_missing_album(&songs), vec!["3".to_string(), "4".to_string()]);
    apply_album_details(
        &mut songs,
        vec![("4".into(), "Later".into(), "l".into()), ("9".into(), "None".into(), "n".into())],
    );
    assert_eq!(songs[3].album.as_deref(), Some("Later"));
    assert_eq!(songs[3].album_id.as_deref(), Some("l"));
    assert_eq!(songs[2].album, None);
}

#[test]
fn marker_search_reads_lowercased_text_only() {
    assert!(contains_video_marker("song (official video)"));
    assert!(contains_video_marker("a video clip"));
    assert!(!contains_video_marker("song (official audio)"));
    assert!(!contains_video_marker("Song (Official Video)"));
    assert!(!contains_video_marker(""));
}
