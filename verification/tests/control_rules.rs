use rift::controls::{
    keyboard_shortcut, row_download_menu_entry, row_download_slot, row_playable, DownloadMenuEntry, DownloadSlot,
    Shortcut,
};
use rift::text::same_text;

#[test]
fn space_toggles_playback_with_or_without_modifiers() {
    assert_eq!(keyboard_shortcut(" ", false, false, false), Some(Shortcut::TogglePlay));
    assert_eq!(keyboard_shortcut(" ", true, false, false), Some(Shortcut::TogglePlay));
}

#[test]
fn command_arrows_skip_tracks() {
    assert_eq!(keyboard_shortcut("ArrowRight", true, false, false), Some(Shortcut::Next));
    assert_eq!(keyboard_shortcut("ArrowRight", false, true, false), Some(Shortcut::Next));
    assert_eq!(keyboard_shortcut("ArrowLeft", true, false, false), Some(Shortcut::Previous));
    assert_eq!(keyboard_shortcut("ArrowLeft", false, true, false), Some(Shortcut::Previous));
}

#[test]
fn bare_arrows_and_other_keys_do_nothing() {
    assert_eq!(keyboard_shortcut("ArrowRight", false, false, false), None);
    assert_eq!(keyboard_shortcut("ArrowLeft", false, false, false), None);
    assert_eq!(keyboard_shortcut("k", true, false, false), None);
    assert_eq!(keyboard_shortcut("Space", false, false, false), None);
    assert_eq!(keyboard_shortcut("", false, false, false), None);
}

#[test]
fn typing_in_a_field_disables_shortcuts() {
    assert_eq!(keyboard_shortcut(" ", false, false, true), None);
    assert_eq!(keyboard_shortcut("ArrowRight", true, false, true), None);
    assert_eq!(keyboard_shortcut("ArrowLeft", false, true, true), None);
}

#[test]
fn rows_play_only_when_reachable_or_downloaded() {
    assert!(row_playable(true, false));
    assert!(row_playable(false, true));
    assert!(row_playable(true, true));
    assert!(!row_playable(false, false));
}

#[test]
fn download_slot_follows_the_row_state() {
    assert_eq!(row_download_slot(true, true, false, false, true), DownloadSlot::KeptOffline);
    assert_eq!(row_download_slot(true, false, false, false, false), DownloadSlot::RemoveDownload);
    assert_eq!(row_download_slot(false, true, true, false, true), DownloadSlot::Downloading);
    assert_eq!(row_download_slot(false, false, false, true, false), DownloadSlot::Retry);
    assert_eq!(row_download_slot(false, false, false, false, true), DownloadSlot::Download);
    assert_eq!(row_download_slot(false, false, false, false, false), DownloadSlot::Empty);
}

#[test]
fn download_menu_offers_download_even_offline() {
    assert_eq!(row_download_menu_entry(true, true, false, false), DownloadMenuEntry::KeptOffline);
    assert_eq!(row_download_menu_entry(true, false, true, true), DownloadMenuEntry::RemoveDownload);
    assert_eq!(row_download_menu_entry(false, false, true, true), DownloadMenuEntry::Downloading);
    assert_eq!(row_download_menu_entry(false, false, false, true), DownloadMenuEntry::Retry);
    assert_eq!(row_download_menu_entry(false, false, false, false), DownloadMenuEntry::Download);
}

#[test]
fn same_text_compares_every_character() {
    assert!(same_text("ArrowLeft", "ArrowLeft"));
    assert!(!same_text("ArrowLeft", "ArrowLef"));
    assert!(!same_text("arrowleft", "ArrowLeft"));
    assert!(same_text("", ""));
}
