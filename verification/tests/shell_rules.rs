use rift::display::{
    album_subtitle, collection_meta, drag_shift_slots, drag_shift_style, fmt_secs, fmt_total_duration, total_duration,
};
use rift::fetch::{
    chunk_len, pick_stream, random_chunk_len, range_header, retry_direct_fetch, ytdlp_args, ytdlp_bin,
    ytdlp_download_url, ytdlp_failure, ytdlp_release_asset, ytdlp_status, ytdlp_temp_name, AudioStreamInfo,
    ChunkedFetch, Lookup, StreamRoute, TargetOs, YtDlpLocator, CHUNK_JITTER, CHUNK_SIZE_MIN, RUSTYPIPE_RETRY_AFTER,
};
use rift::model::{AlbumSummary, PlaybackState, Track};
use rift::presence::{
    anchor, build_activity, fold, media_action, media_metadata, os_playback, presence_step, should_push, MediaAction,
    MediaKey, NowPlaying, OsPlayback, PresenceCmd, PresenceStep,
};
use rift::settings::{normalize_ytdlp_path, preview_mode_from};
use rift::text::{decimal, hex16, join, trim};

fn track(id: &str, duration: Option<u32>) -> Track {
    Track {
        id: id.into(),
        title: String::new(),
        artist: String::new(),
        album: None,
        duration,
        cover: String::new(),
        artists: Vec::new(),
        album_id: None,
    }
}

#[test]
fn times_read_as_clock_and_totals() {
    assert_eq!(fmt_secs(0), "0:00");
    assert_eq!(fmt_secs(65), "1:05");
    assert_eq!(fmt_secs(600), "10:00");
    assert_eq!(fmt_secs(3725), "1:02:05");
    assert_eq!(fmt_total_duration(45), "45 sec");
    assert_eq!(fmt_total_duration(125), "2 min");
    assert_eq!(fmt_total_duration(4980), "1 hr 23 min");
    assert_eq!(fmt_total_duration(3600), "1 hr 0 min");
}

#[test]
fn collection_subtitles_count_songs_and_known_time() {
    let tracks = vec![track("a", Some(100)), track("b", None), track("c", Some(50))];
    assert_eq!(total_duration(&tracks), Some(150));
    assert_eq!(collection_meta(&tracks), "3 songs \u{2022} 2 min");
    assert_eq!(collection_meta(&vec![track("a", Some(5))]), "1 song \u{2022} 5 sec");
    assert_eq!(total_duration(&vec![track("a", Some(u32::MAX)), track("b", Some(1))]), None);
    let a = AlbumSummary {
        id: "x".into(),
        name: "X".into(),
        cover: String::new(),
        artist: String::new(),
        artist_id: None,
        year: Some(2019),
        album_type: "EP".into(),
    };
    assert_eq!(album_subtitle(&a), "EP \u{2022} 2019");
}

#[test]
fn drag_preview_slides_rows_into_the_drop_order() {
    // Dragging row 1 over row 3 of five.
    let shifts: Vec<Option<i64>> = (0..5).map(|i| drag_shift_slots(1, 3, i)).collect();
    assert_eq!(shifts, vec![None, Some(2), Some(-1), Some(-1), None]);
    let shifts: Vec<Option<i64>> = (0..5).map(|i| drag_shift_slots(3, 0, i)).collect();
    assert_eq!(shifts, vec![Some(1), Some(1), Some(1), Some(-3), None]);
    assert_eq!(drag_shift_slots(2, 2, 2), None);
    assert_eq!(
        drag_shift_style(Some(1), Some(3), 1, 6).as_deref(),
        Some("transform: translateY(calc(200% + 12px));")
    );
    assert_eq!(
        drag_shift_style(Some(1), Some(3), 2, 6).as_deref(),
        Some("transform: translateY(calc(-100% + -6px));")
    );
    assert_eq!(drag_shift_style(None, Some(3), 2, 6), None);
    assert_eq!(drag_shift_style(Some(1), Some(3), 4, 6), None);
}

#[test]
fn stream_route_backs_off_then_reprobes() {
    let mut route = StreamRoute::new();
    assert!(route.next_fetch());
    route.direct_failed();
    for _ in 0..RUSTYPIPE_RETRY_AFTER {
        assert!(!route.next_fetch());
    }
    assert!(route.next_fetch(), "re-probed after the cooldown");
}

#[test]
fn chunked_fetch_requests_ranges_until_done() {
    assert_eq!(chunk_len(0), CHUNK_SIZE_MIN);
    assert_eq!(chunk_len(CHUNK_JITTER + 5), CHUNK_SIZE_MIN + 5);
    let c = random_chunk_len();
    assert!(c >= CHUNK_SIZE_MIN && c < CHUNK_SIZE_MIN + CHUNK_JITTER);

    let mut f = ChunkedFetch::new(1_000_000);
    assert_eq!(f.next_range(800_000), Some((0, 799_999)));
    f.record(800_000, 800_000);
    assert_eq!(f.next_range(800_000), Some((800_000, 999_999)));
    f.record(200_000, 200_000);
    assert_eq!(f.next_range(800_000), None);
    assert_eq!(f.outcome(1_000_000), Ok(()));

    let mut short = ChunkedFetch::new(0);
    assert_eq!(short.next_range(10), Some((0, 9)));
    short.record(4, 10);
    assert!(short.done);
    assert_eq!(short.next_range(10), None);

    let truncated = ChunkedFetch::new(500);
    assert_eq!(truncated.outcome(100), Err("incomplete stream: got 100 of 500 bytes".to_string()));
    assert_eq!(range_header(0, 799_999), "bytes=0-799999");
}

#[test]
fn best_m4a_stream_is_picked() {
    let streams = vec![
        AudioStreamInfo { is_m4a: false, bitrate: 999 },
        AudioStreamInfo { is_m4a: true, bitrate: 128 },
        AudioStreamInfo { is_m4a: true, bitrate: 256 },
        AudioStreamInfo { is_m4a: true, bitrate: 256 },
    ];
    assert_eq!(pick_stream(&streams), Some(3), "last of the best");
    assert_eq!(pick_stream(&vec![AudioStreamInfo { is_m4a: false, bitrate: 1 }]), None);
    assert!(retry_direct_fetch(0, true));
    assert!(!retry_direct_fetch(1, true));
    assert!(!retry_direct_fetch(0, false));
}

#[test]
fn ytdlp_invocation_and_location() {
    assert_eq!(ytdlp_release_asset(TargetOs::Linux, true), "yt-dlp_linux_aarch64");
    assert_eq!(ytdlp_release_asset(TargetOs::Linux, false), "yt-dlp_linux");
    assert_eq!(ytdlp_release_asset(TargetOs::MacOs, true), "yt-dlp_macos");
    assert_eq!(ytdlp_release_asset(TargetOs::Windows, false), "yt-dlp.exe");
    assert_eq!(ytdlp_release_asset(TargetOs::Other, false), "yt-dlp");
    assert_eq!(ytdlp_bin(true), "yt-dlp.exe");
    assert_eq!(
        ytdlp_download_url("yt-dlp_macos"),
        "https://github.com/yt-dlp/yt-dlp/releases/latest/download/yt-dlp_macos"
    );
    assert_eq!(ytdlp_temp_name("abc", 255), "rift-abc-00000000000000ff.m4a");
    let args = ytdlp_args("abc", "/tmp/x.m4a".into());
    assert_eq!(args[7], "/tmp/x.m4a");
    assert_eq!(args[8], "https://www.youtube.com/watch?v=abc");
    assert_eq!(ytdlp_failure("  boom \n"), "yt-dlp failed: boom");

    let found = ytdlp_status("/bin/yt-dlp".into(), true, "2024.01.01\n", true);
    assert!(found.found);
    assert_eq!(found.version.as_deref(), Some("2024.01.01"));
    let broken = ytdlp_status("/bin/yt-dlp".into(), false, "", true);
    assert_eq!(broken.path.as_deref(), Some("/bin/yt-dlp"));
    assert_eq!(broken.version, None);
    assert_eq!(ytdlp_status("yt-dlp".into(), false, "", false).path, None);

    let mut loc = YtDlpLocator::new();
    assert!(matches!(loc.lookup(false), Lookup::Probe));
    assert_eq!(loc.probed(None, "yt-dlp"), "yt-dlp");
    assert!(matches!(loc.lookup(false), Lookup::Probe), "a miss is not remembered");
    assert_eq!(loc.probed(Some("/usr/bin/yt-dlp".into()), "yt-dlp"), "/usr/bin/yt-dlp");
    assert!(matches!(loc.lookup(false), Lookup::Use(p) if p == "/usr/bin/yt-dlp"));
    loc.set_ytdlp_override(Some("/opt/yt".into()));
    assert!(matches!(loc.lookup(true), Lookup::Use(p) if p == "/opt/yt"));
    assert!(matches!(loc.lookup(false), Lookup::Use(p) if p == "/usr/bin/yt-dlp"), "invalid override falls back");
}

#[test]
fn settings_rules() {
    assert_eq!(normalize_ytdlp_path(Some("  /x/yt-dlp ".into())), Some("/x/yt-dlp".to_string()));
    assert_eq!(normalize_ytdlp_path(Some("   ".into())), None);
    assert_eq!(normalize_ytdlp_path(None), None);
    assert!(preview_mode_from(true, Some("1".into())));
    assert!(!preview_mode_from(true, Some("0".into())));
    assert!(!preview_mode_from(true, Some("".into())));
    assert!(!preview_mode_from(false, Some("1".into())));
    assert!(!preview_mode_from(true, None));
}

fn now_playing() -> NowPlaying {
    NowPlaying {
        title: "Song".into(),
        artist: "Artist".into(),
        cover: String::new(),
        duration_ms: 0,
        state: PlaybackState::Loading,
        anchor: None,
    }
}

#[test]
fn presence_snapshot_and_pacing() {
    assert_eq!(anchor(PlaybackState::Playing, 200_000, 30_000, 1_000_000), Some((970_000, 1_170_000)));
    assert_eq!(anchor(PlaybackState::Paused, 200_000, 30_000, 1_000_000), None);
    assert_eq!(anchor(PlaybackState::Playing, 0, 30_000, 1_000_000), None);

    let mut now = None;
    let mut enabled = true;
    fold(
        PresenceCmd::State { state: PlaybackState::Playing, position_ms: 0 },
        &mut now,
        &mut enabled,
        5,
    );
    assert!(now.is_none(), "no track yet");
    fold(
        PresenceCmd::Track { title: "S".into(), artist: "A".into(), cover: "c".into(), duration_ms: 0 },
        &mut now,
        &mut enabled,
        5,
    );
    assert_eq!(now.as_ref().unwrap().state, PlaybackState::Loading);
    fold(PresenceCmd::State { state: PlaybackState::Playing, position_ms: 1_000 }, &mut now, &mut enabled, 10_000);
    assert_eq!(now.as_ref().unwrap().anchor, None, "length unknown yet");
    fold(PresenceCmd::Duration { duration_ms: 60_000, position_ms: 2_000 }, &mut now, &mut enabled, 11_000);
    assert_eq!(now.as_ref().unwrap().anchor, Some((9_000, 69_000)));
    fold(PresenceCmd::Enabled(false), &mut now, &mut enabled, 0);
    assert!(!enabled);

    assert!(!should_push(true, 14_999));
    assert!(should_push(true, 15_000));
    assert!(!should_push(false, 59_999));
    assert!(should_push(false, 60_000));

    assert!(presence_step(true, Some(PlaybackState::Loading), true) == PresenceStep::Hold);
    assert!(presence_step(true, Some(PlaybackState::Paused), false) == PresenceStep::Show);
    assert!(presence_step(false, Some(PlaybackState::Playing), true) == PresenceStep::Clear);
    assert!(presence_step(true, Some(PlaybackState::Stopped), false) == PresenceStep::Idle);
    assert!(presence_step(true, None, true) == PresenceStep::Clear);

    let act = build_activity(&now_playing());
    assert_eq!(act.details, "Song");
    assert_eq!(act.large_image, None);
    assert_eq!(act.small_image, "rift_logo");
}

#[test]
fn media_session_mapping() {
    assert!(os_playback(PlaybackState::Loading) == OsPlayback::Paused);
    assert!(os_playback(PlaybackState::Stopped) == OsPlayback::Stopped);
    assert!(media_action(MediaKey::Play) == MediaAction::TogglePlayback);
    assert!(media_action(MediaKey::Previous) == MediaAction::Previous);
    assert!(media_action(MediaKey::Other) == MediaAction::Ignore);
    assert_eq!(media_metadata(&String::new(), 0), (None, None));
    assert_eq!(media_metadata(&"u".to_string(), 5), (Some("u".to_string()), Some(5)));
}

#[test]
fn text_helpers() {
    assert_eq!(decimal(0), "0");
    assert_eq!(decimal(1234567890), "1234567890");
    assert_eq!(hex16(0xdead_beef), "00000000deadbeef");
    assert_eq!(join(&vec!["a".to_string(), "b".to_string(), "c".to_string()], ", "), "a, b, c");
    assert_eq!(join(&vec![], ", "), "");
    assert_eq!(trim("\u{3000} x y \t"), "x y");
}

#[test]
fn drag_preview_styles_read_back_as_the_drop_order() {
    let rows = ["a", "b", "c", "d", "e"];
    for (from, over) in [(1usize, 3usize), (3, 0), (0, 4), (4, 0), (2, 1)] {
        let mut dropped: Vec<&str> = rows.to_vec();
        let moved = dropped.remove(from);
        dropped.insert(over, moved);
        for i in 0..rows.len() {
            let slots = match drag_shift_style(Some(from), Some(over), i, 6) {
                Some(style) => {
                    let rest = style.strip_prefix("transform: translateY(calc(").expect("prefix");
                    let pct: i64 = rest[..rest.find('%').expect("percent")].parse().expect("number");
                    assert_eq!(pct % 100, 0);
                    pct / 100
                }
                None => 0,
            };
            let landed = (i as i64 + slots) as usize;
            assert_eq!(dropped[landed], rows[i], "row {i} dragging {from} over {over}");
        }
    }
}
