use std::collections::HashSet;

use rift::downloads::{classify_entry, offline_file_name, Downloads, EntryKind};
use rift::model::{Playlist, Track};
use rift::offline::{
    after_pass, download_failure_message, keep_offline_on_add, pin_retry_delay, playlist_fully_downloaded,
    playlist_kept_offline, settle_failed_download, PassEnd,
};

fn track(id: &str) -> Track {
    Track {
        id: id.into(),
        title: String::new(),
        artist: String::new(),
        album: None,
        duration: None,
        cover: String::new(),
        artists: Vec::new(),
        album_id: None,
    }
}

fn playlist(ids: &[&str]) -> Playlist {
    Playlist {
        id: "pl".into(),
        name: "pl".into(),
        tracks: ids.iter().map(|i| track(i)).collect(),
    }
}

#[test]
fn begin_claims_once_so_concurrent_calls_dont_double_fetch() {
    let mut d = Downloads::new();
    assert!(d.begin("a"), "first claim succeeds");
    assert!(!d.begin("a"), "second claim is rejected");
    assert!(d.is_downloading("a"));
}

#[test]
fn finish_moves_from_in_flight_to_downloaded() {
    let mut d = Downloads::new();
    d.begin("a");
    d.finish("a");
    assert!(!d.is_downloading("a"));
    assert!(d.is_downloaded("a"));
    // After finishing it can be claimed again (e.g. re-download).
    assert!(d.begin("a"));
}

#[test]
fn fail_releases_the_claim_without_marking_downloaded() {
    let mut d = Downloads::new();
    d.begin("a");
    d.fail("a");
    assert!(!d.is_downloading("a"));
    assert!(!d.is_downloaded("a"));
}

#[test]
fn mark_failed_records_and_is_cleared_by_a_retry_or_success() {
    let mut d = Downloads::new();
    d.begin("a");
    d.mark_failed("a");
    assert!(!d.is_downloading("a"), "the in-flight claim is dropped");
    assert!(d.state().failed.contains(&"a".to_string()));

    // Re-attempting clears the failed mark (the row stops showing retry).
    assert!(d.begin("a"));
    assert!(!d.state().failed.contains(&"a".to_string()));

    // Finishing also clears it, and removing does too.
    d.mark_failed("a");
    d.finish("a");
    assert!(!d.state().failed.contains(&"a".to_string()));
    assert!(d.is_downloaded("a"));

    d.mark_failed("a");
    d.remove("a");
    assert!(!d.state().failed.contains(&"a".to_string()));
}

#[test]
fn removing_forgets_the_offline_copy() {
    let mut d = Downloads::with_downloaded(vec!["a".into()]);
    assert!(d.is_downloaded("a"));
    d.remove("a");
    assert!(!d.is_downloaded("a"));
}

#[test]
fn load_discovers_existing_offline_files() {
    // What a directory scan finds: the m4a files are downloads, other files
    // are not, and partial files are flagged for deletion.
    let mut found = Vec::new();
    for name in ["song.m4a", "notes.txt", "half.part", "x.y.m4a"] {
        match classify_entry(name) {
            EntryKind::Offline(id) => found.push(id),
            EntryKind::Partial => assert_eq!(name, "half.part"),
            EntryKind::Other => assert_eq!(name, "notes.txt"),
        }
    }
    let reloaded = Downloads::with_downloaded(found);
    assert!(reloaded.is_downloaded("song"));
    assert!(!reloaded.is_downloaded("notes"));
    assert!(reloaded.is_downloaded("x.y"));
    assert_eq!(offline_file_name("song"), "song.m4a");
}

#[test]
fn claim_pending_skips_downloaded_and_in_flight_tracks() {
    let mut d = Downloads::with_downloaded(vec!["done".into()]);
    d.begin("busy");
    let claimed = d.claim_pending(vec![track("done"), track("busy"), track("new"), track("new")]);
    let ids: Vec<&str> = claimed.iter().map(|t| t.id.as_str()).collect();
    assert_eq!(ids, vec!["new"]);
    assert!(d.is_downloading("new"));
    // Claiming the same tracks again claims nothing.
    assert!(d.claim_pending(vec![track("new")]).is_empty());
}

#[test]
fn fresh_full_download_that_fully_fails_is_not_kept_offline() {
    // A never-downloaded playlist the user just clicked Download on: the
    // whole playlist is the batch and nothing is on disk. Must NOT qualify,
    // or a total failure would retry forever.
    let pls = vec![playlist(&["a", "b", "c"])];
    let downloaded = |_: &str| false;
    let batch: HashSet<&str> = ["a", "b", "c"].into_iter().collect();
    let in_batch = |t: &str| batch.contains(t);
    assert!(!playlist_kept_offline(&pls, downloaded, "a", in_batch));
}

#[test]
fn topping_up_a_fully_downloaded_playlist_is_kept_offline() {
    // Playlist already fully offline; one track ("c") is being re-fetched
    // (e.g. it was deleted). The others are on disk, so it qualifies.
    let pls = vec![playlist(&["a", "b", "c"])];
    let downloaded = |t: &str| t == "a" || t == "b";
    let in_batch = |t: &str| t == "c";
    assert!(playlist_kept_offline(&pls, downloaded, "c", in_batch));
}

#[test]
fn partially_downloaded_playlist_is_not_kept_offline() {
    // "a" on disk, "b" missing and not in the batch → the playlist was
    // never fully offline, so a failure of "c" must not retry forever.
    let pls = vec![playlist(&["a", "b", "c"])];
    let downloaded = |t: &str| t == "a";
    let in_batch = |t: &str| t == "c";
    assert!(!playlist_kept_offline(&pls, downloaded, "c", in_batch));
}

#[test]
fn track_in_no_kept_offline_playlist_is_not_kept_offline() {
    let pls = vec![playlist(&["a", "b"])];
    let downloaded = |_: &str| true;
    let in_batch = |t: &str| t == "z";
    assert!(!playlist_kept_offline(&pls, downloaded, "z", in_batch));
}

#[test]
fn fully_downloaded_needs_every_track_and_at_least_one() {
    assert!(!playlist_fully_downloaded(&playlist(&[]), |_: &str| true));
    assert!(playlist_fully_downloaded(&playlist(&["a", "b"]), |_: &str| true));
    assert!(!playlist_fully_downloaded(&playlist(&["a", "b"]), |t: &str| t == "a"));
}

#[test]
fn adding_to_a_fully_downloaded_playlist_downloads_the_new_track() {
    let pls = vec![playlist(&["a", "b"])];
    assert!(keep_offline_on_add(&pls, "pl", "c", |_: &str| true));
    assert!(!keep_offline_on_add(&pls, "pl", "a", |_: &str| true), "already in it");
    assert!(!keep_offline_on_add(&pls, "pl", "c", |t: &str| t == "a"), "not fully offline");
    assert!(!keep_offline_on_add(&pls, "other", "c", |_: &str| true), "no such playlist");
}

#[test]
fn retry_backoff_doubles_then_caps() {
    let delays: Vec<u64> = (0..8).map(pin_retry_delay).collect();
    assert_eq!(delays, vec![0, 30, 60, 120, 240, 300, 300, 300]);
    assert_eq!(pin_retry_delay(u32::MAX), 300);
}

#[test]
fn passes_retry_with_one_notice_then_give_up() {
    assert!(matches!(after_pass(0, &vec![]), PassEnd::Done));
    match after_pass(0, &vec!["A".to_string()]) {
        PassEnd::Retry { notice, delay_secs, next_attempt } => {
            assert_eq!(
                notice.as_deref(),
                Some("Couldn\u{2019}t download 1 track \u{2014} retrying in the background.")
            );
            assert_eq!(delay_secs, 0);
            assert_eq!(next_attempt, 1);
        }
        _ => panic!("expected a retry"),
    }
    match after_pass(2, &vec!["A".to_string(), "B".to_string()]) {
        PassEnd::Retry { notice, delay_secs, next_attempt } => {
            assert_eq!(notice, None);
            assert_eq!(delay_secs, 60);
            assert_eq!(next_attempt, 3);
        }
        _ => panic!("expected a retry"),
    }
    match after_pass(5, &vec!["A".to_string(), "B".to_string()]) {
        PassEnd::GiveUp(msg) => assert_eq!(
            msg,
            "Gave up downloading 2 tracks after 6 tries \u{2014} \u{201c}A\u{201d}, \u{201c}B\u{201d} may be unavailable. Retry from a track's menu."
        ),
        _ => panic!("expected giving up"),
    }
}

#[test]
fn failed_downloads_are_requeued_only_when_kept_offline() {
    let mut d = Downloads::new();
    d.begin("a");
    assert!(settle_failed_download(&mut d, "a", true));
    assert!(!d.is_downloading("a"));
    assert!(!d.state().failed.contains(&"a".to_string()));
    d.begin("b");
    assert!(!settle_failed_download(&mut d, "b", false));
    assert!(d.state().failed.contains(&"b".to_string()));
    assert_eq!(
        download_failure_message(false, "Song", "timeout"),
        "Could not download \u{201c}Song\u{201d}: timeout"
    );
    assert_eq!(download_failure_message(true, "Song", "disk full"), "Could not save \u{201c}Song\u{201d}: disk full");
}

#[test]
fn a_chain_of_passes_that_keeps_failing_stops_after_six() {
    let failed = vec!["A".to_string()];
    let mut attempt: u32 = 0;
    let mut passes = 1;
    let mut waited = 0;
    loop {
        match after_pass(attempt, &failed) {
            PassEnd::Retry { delay_secs, next_attempt, .. } => {
                waited += delay_secs;
                attempt = next_attempt;
                passes += 1;
            }
            PassEnd::GiveUp(_) => break,
            PassEnd::Done => panic!("something failed"),
        }
        assert!(passes <= 6);
    }
    assert_eq!(passes, 6);
    assert_eq!(waited, 0 + 30 + 60 + 120 + 240);
}
