use std::collections::HashSet;

use rift::collections::{
    collection_start, count_tracks, download_button, downloading_label, pinned_ids, play_button,
    removal_blocked_notice, removal_blockers, split_singles, DownloadButton,
};
use rift::model::{AlbumSummary, PlaybackState, Playlist, Track};

fn track(id: &str) -> Track {
    Track {
        id: id.into(),
        title: String::new(),
        artist: String::new(),
        album: None,
        duration: None,
        cover: String::new(),
        artists: Vec::new(),
        album_id: None,
    }
}

fn playlist(name: &str, ids: &[&str]) -> Playlist {
    Playlist { id: name.to_lowercase(), name: name.into(), tracks: ids.iter().map(|i| track(i)).collect() }
}

#[test]
fn fully_downloaded_playlists_pin_their_tracks() {
    let pls = vec![playlist("Road", &["a", "b"]), playlist("Gym", &["b", "c"]), playlist("Empty", &[])];
    let downloaded: HashSet<&str> = ["a", "b"].into_iter().collect();
    let is_downloaded = |t: &str| downloaded.contains(t);
    let pinned: HashSet<String> = pinned_ids(&pls, is_downloaded).into_iter().collect();
    let expected: HashSet<String> = ["a".to_string(), "b".to_string()].into_iter().collect();
    assert_eq!(pinned, expected);
    assert_eq!(removal_blockers(&pls, "b", is_downloaded), vec!["Road".to_string()]);
    assert!(removal_blockers(&pls, "c", is_downloaded).is_empty());
    // The guard and the indicator agree on every track.
    for id in ["a", "b", "c", "z"] {
        assert_eq!(pinned.contains(id), !removal_blockers(&pls, id, is_downloaded).is_empty());
    }
}

#[test]
fn refused_removal_names_the_playlists() {
    assert_eq!(
        removal_blocked_notice(&vec!["Road".to_string()]),
        "This song is kept offline in \u{201c}Road\u{201d}. Remove it from that playlist before deleting the download."
    );
    assert_eq!(
        removal_blocked_notice(&vec!["Road".to_string(), "Gym".to_string()]),
        "This song is kept offline in \u{201c}Road\u{201d}, \u{201c}Gym\u{201d}. Remove it from those playlists before deleting the download."
    );
}

fn album(name: &str, kind: &str) -> AlbumSummary {
    AlbumSummary {
        id: name.into(),
        name: name.into(),
        cover: String::new(),
        artist: String::new(),
        artist_id: None,
        year: None,
        album_type: kind.into(),
    }
}

#[test]
fn singles_are_listed_apart() {
    let (singles, rest) = split_singles(vec![album("A", "Album"), album("S", "Single"), album("E", "EP"), album("T", "Single")]);
    let s: Vec<&str> = singles.iter().map(|a| a.name.as_str()).collect();
    let r: Vec<&str> = rest.iter().map(|a| a.name.as_str()).collect();
    assert_eq!(s, vec!["S", "T"]);
    assert_eq!(r, vec!["A", "E"]);
}

#[test]
fn download_counter_shows_the_one_in_flight() {
    assert_eq!(downloading_label(0, 10), "Downloading 1/10");
    assert_eq!(downloading_label(9, 10), "Downloading 10/10");
    assert_eq!(downloading_label(10, 10), "Downloading 10/10");
}

#[test]
fn collection_buttons_reflect_downloads_and_playback() {
    let tracks = vec![track("a"), track("b"), track("c")];
    let downloaded: HashSet<&str> = ["a", "c"].into_iter().collect();
    assert_eq!(count_tracks(&tracks, |t: &str| downloaded.contains(t)), 2);
    assert_eq!(count_tracks(&tracks, |_: &str| false), 0);
    assert!(matches!(download_button(2, 1, 3), DownloadButton::InProgress(l) if l == "Downloading 3/3"));
    assert!(matches!(download_button(3, 0, 3), DownloadButton::Downloaded));
    assert!(matches!(download_button(1, 0, 3), DownloadButton::Offer));

    let liked = Some("liked".to_string());
    assert_eq!(play_button(&liked, &liked, PlaybackState::Playing), (true, true));
    assert_eq!(play_button(&liked, &liked, PlaybackState::Paused), (true, false));
    assert_eq!(play_button(&liked, &liked, PlaybackState::Stopped), (false, false));
    assert_eq!(play_button(&liked, &Some("other".into()), PlaybackState::Playing), (false, false));
    assert_eq!(play_button(&None, &None, PlaybackState::Playing), (false, false));

    assert_eq!(collection_start(false, 10, 7), 0);
    assert_eq!(collection_start(true, 1, 7), 0);
    assert_eq!(collection_start(true, 10, 17), 7);
}
