use rift::library::{LibraryStore, RECENT_CAP};
use rift::model::{ArtistRef, Library, Track};

fn track(id: &str) -> Track {
    Track {
        id: id.into(),
        title: id.into(),
        artist: String::new(),
        album: None,
        duration: None,
        cover: String::new(),
        artists: Vec::new(),
        album_id: None,
    }
}

fn temp_store() -> LibraryStore {
    LibraryStore { data: Library::default() }
}

#[test]
fn like_toggles_and_persists_across_reload() {
    let mut lib = temp_store();
    lib.toggle_like(track("a"));
    assert_eq!(lib.data.liked.len(), 1);

    // A reload hands back the same data: the like survived.
    let reloaded = LibraryStore { data: Library { liked: lib.data.liked.clone(), ..Library::default() } };
    assert_eq!(reloaded.data.liked.len(), 1);

    lib.toggle_like(track("a"));
    assert!(lib.data.liked.is_empty());
}

#[test]
fn recently_played_dedups_caps_and_orders_newest_first() {
    let mut lib = temp_store();
    lib.push_recent(track("a"));
    lib.push_recent(track("b"));
    lib.push_recent(track("a")); // re-play moves "a" to front, no duplicate
    assert_eq!(
        lib.data.recently_played.iter().map(|t| t.id.as_str()).collect::<Vec<_>>(),
        vec!["a", "b"]
    );

    for i in 0..RECENT_CAP + 5 {
        lib.push_recent(track(&format!("x{i}")));
    }
    assert_eq!(lib.data.recently_played.len(), RECENT_CAP);
}

#[test]
fn playlist_add_is_idempotent_and_remove_works() {
    let mut lib = temp_store();
    let pl = lib.create_playlist("Mix".into());
    lib.add_to_playlist(&pl.id, track("a"));
    lib.add_to_playlist(&pl.id, track("a")); // duplicate ignored
    assert_eq!(lib.data.playlists[0].tracks.len(), 1);

    lib.remove_from_playlist(&pl.id, "a");
    assert!(lib.data.playlists[0].tracks.is_empty());

    lib.delete_playlist(&pl.id);
    assert!(lib.data.playlists.is_empty());
}

#[test]
fn backfill_copies_credits_onto_creditless_copies() {
    let mut lib = temp_store();
    lib.toggle_like(track("a")); // stored without artist credits

    let mut enriched = track("a");
    enriched.artist = "Daft Punk".into();
    enriched.artists = vec![ArtistRef { id: Some("chan".into()), name: "Daft Punk".into() }];
    lib.backfill_track(&enriched);

    assert_eq!(lib.data.liked[0].artist, "Daft Punk");
    assert_eq!(lib.data.liked[0].artists.len(), 1);
}

#[test]
fn new_likes_go_first_and_recents_keep_the_newest_thirty() {
    let mut lib = temp_store();
    lib.toggle_like(track("a"));
    lib.toggle_like(track("b"));
    assert_eq!(lib.data.liked[0].id, "b");
    for i in 0..40 {
        lib.push_recent(track(&format!("t{i}")));
    }
    assert_eq!(lib.data.recently_played[0].id, "t39");
    assert_eq!(lib.data.recently_played[29].id, "t10");
}

#[test]
fn playlist_ids_are_prefixed_hex() {
    let mut lib = temp_store();
    let pl = lib.create_playlist_with_id("Mix".into(), vec![track("a")], 0xab);
    assert_eq!(pl.id, "pl-00000000000000ab");
    assert_eq!(pl.tracks.len(), 1);
    let other = lib.create_playlist("Other".into());
    assert!(other.id.starts_with("pl-"));
    assert_eq!(other.id.len(), 19);
}

#[test]
fn rename_and_move_playlists() {
    let mut lib = temp_store();
    let a = lib.create_playlist_with_id("A".into(), vec![], 1);
    let b = lib.create_playlist_with_id("B".into(), vec![], 2);
    let c = lib.create_playlist_with_id("C".into(), vec![], 3);
    assert!(lib.rename_playlist(&b.id, "Bee".into()));
    assert!(!lib.rename_playlist("missing", "X".into()));
    assert_eq!(lib.data.playlists[1].name, "Bee");
    assert!(lib.move_playlist(&c.id, 0));
    let order: Vec<&str> = lib.data.playlists.iter().map(|p| p.name.as_str()).collect();
    assert_eq!(order, vec!["C", "A", "Bee"]);
    assert!(!lib.move_playlist(&a.id, 1), "already there");
    assert!(!lib.add_to_playlist("missing", track("z")));
    assert!(!lib.remove_from_playlist("missing", "z"));
}

#[test]
fn backfill_without_credits_changes_nothing() {
    let mut lib = temp_store();
    lib.toggle_like(track("a"));
    assert!(!lib.backfill_track(&track("a")));
    let mut other = track("b");
    other.artists = vec![ArtistRef { id: None, name: "X".into() }];
    assert!(!lib.backfill_track(&other), "no copy of it is stored");
}
