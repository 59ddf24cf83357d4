use rift::catalog::{ArtistId, Thumbnail, TrackItem};
use rift::import::{
    export_file_name, import_notice, import_target, import_tracks, new_playlist_name, parse_playlist_id,
    safe_filename,
};

fn check_playlist_ids() {
    assert_eq!(
        parse_playlist_id("https://music.youtube.com/playlist?list=PLabc123"),
        Some("PLabc123".into())
    );
    assert_eq!(
        parse_playlist_id("https://www.youtube.com/playlist?list=OLAK5uy_x&si=foo"),
        Some("OLAK5uy_x".into()),
        "stops at the next query param"
    );
    assert_eq!(parse_playlist_id("  PLbareId  "), Some("PLbareId".into()));
    assert_eq!(parse_playlist_id(""), None);
    assert_eq!(
        parse_playlist_id("https://youtube.com/watch?v=abc"),
        None,
        "a non-playlist URL yields nothing"
    );
}

#[test]
fn commands_parses_playlist_ids_from_urls_and_bare_ids() {
    check_playlist_ids();
}

#[test]
fn library_parses_playlist_ids_from_urls_and_bare_ids() {
    check_playlist_ids();
}

#[test]
fn playlist_id_stops_at_fragment_and_second_list() {
    assert_eq!(parse_playlist_id("x?list=AB#frag"), Some("AB".into()));
    assert_eq!(parse_playlist_id("a?list=ONE&b=list=TWO"), Some("ONE".into()));
    // An empty list value falls back to the bare-ID rule, which a URL fails.
    assert_eq!(parse_playlist_id("https://x/?list=&a=1"), None);
    // An empty list value on something bare-looking keeps the whole input.
    assert_eq!(parse_playlist_id("list=&x"), Some("list=&x".into()));
    assert_eq!(parse_playlist_id("has space"), None);
    assert_eq!(parse_playlist_id("   "), None);
}

#[test]
fn import_target_reports_missing_id() {
    assert_eq!(import_target("PLx"), Ok("PLx".to_string()));
    assert_eq!(
        import_target("https://youtube.com/watch?v=abc"),
        Err("Couldn't find a playlist ID in that link.".to_string())
    );
}

#[test]
fn safe_filename_drops_awkward_characters() {
    assert_eq!(safe_filename("My Mix"), "My Mix");
    assert_eq!(safe_filename("a/b\\c:d"), "abcd");
    assert_eq!(safe_filename("AC/DC: Live!"), "ACDC Live");
    assert_eq!(safe_filename("playlist"), "playlist");
    assert_eq!(safe_filename("!!!"), "playlist");
    assert_eq!(safe_filename("  spaced  "), "spaced");
    assert_eq!(safe_filename("Caf\u{e9} \u{65e5}\u{672c}"), "Caf\u{e9} \u{65e5}\u{672c}");
    assert_eq!(safe_filename("   "), "playlist");
    assert_eq!(safe_filename(""), "playlist");
    assert_eq!(safe_filename("x-y_z"), "x-y_z");
    assert_eq!(export_file_name("Road/Trip"), "RoadTrip.json");
}

#[test]
fn new_playlist_names_are_trimmed_and_not_blank() {
    assert_eq!(new_playlist_name("  Mix  "), Ok("Mix".to_string()));
    assert_eq!(new_playlist_name(" \t "), Err("playlist name cannot be empty".to_string()));
}

#[test]
fn import_notice_counts_songs() {
    assert_eq!(import_notice("Mix", 1), "Imported \u{201c}Mix\u{201d} (1 song)");
    assert_eq!(import_notice("Mix", 12), "Imported \u{201c}Mix\u{201d} (12 songs)");
    assert_eq!(import_notice("Mix", 0), "Imported \u{201c}Mix\u{201d} (0 songs)");
}

fn item(id: &str, name: &str, is_track: bool) -> TrackItem {
    TrackItem {
        id: id.into(),
        name: name.into(),
        duration: Some(100),
        cover: vec![Thumbnail { url: "u".into(), width: 600 }],
        artists: vec![ArtistId { id: None, name: "A".into() }],
        album: None,
        is_track,
    }
}

#[test]
fn importing_keeps_audio_tracks_and_names_blank_playlists() {
    let (name, tracks) = import_tracks(
        "  ".into(),
        vec![item("1", "Song", true), item("2", "Song (Official Video)", true), item("3", "Ep", false)],
    )
    .unwrap();
    assert_eq!(name, "Imported playlist");
    assert_eq!(tracks.len(), 1);
    assert_eq!(tracks[0].id, "1");
    let (name, _) = import_tracks(" Road ".into(), vec![item("1", "Song", true)]).unwrap();
    assert_eq!(name, " Road ");
    assert_eq!(
        import_tracks("x".into(), vec![item("2", "Clip (Music Video)", true)]).unwrap_err(),
        "That playlist has no playable songs."
    );
}

#[test]
fn safe_names_stay_as_they_are() {
    for name in ["AC/DC: Live!", "  Road/Trip ", "   ", "", "x-y_z", "Caf\u{e9} \u{65e5}\u{672c}", "../etc"] {
        let once = safe_filename(name);
        assert!(!once.is_empty());
        assert!(once.chars().all(|c| c.is_alphanumeric() || c == ' ' || c == '-' || c == '_'));
        assert_eq!(once, once.trim());
        assert_eq!(safe_filename(&once), once, "{name:?}");
    }
    assert_eq!(safe_filename("../etc"), "etc");
    assert_eq!(safe_filename("     "), "playlist");
}
