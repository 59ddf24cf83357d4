//! Input rules of the player window: the global keyboard shortcuts, and what
//! a track row offers for playback and offline copies.

use vstd::prelude::*;
use crate::text::same_text;

verus! {

/// A player command bound to a key.
#[derive(Debug, Clone, Copy, PartialEq, Eq, Structural)]
pub enum Shortcut {
    TogglePlay,
    Next,
    Previous,
}

/// The command for a key press outside a text field: Space toggles play and
/// pause; with Ctrl or Cmd held, the right arrow goes to the next track and
/// the left arrow to the previous one. Any other key has none.
pub open spec fn shortcut_for(key: Seq<char>, command_held: bool) -> Option<Shortcut> {
    if key == " "@ {
        Some(Shortcut::TogglePlay)
    } else if command_held && key == "ArrowRight"@ {
        Some(Shortcut::Next)
    } else if command_held && key == "ArrowLeft"@ {
        Some(Shortcut::Previous)
    } else {
        None
    }
}

/// The command that a key press triggers, given the key's name, whether
/// Ctrl or Cmd (meta) is held, and whether focus is in a text field. While
/// typing nothing is triggered, so search and rename keep their keys.
pub fn keyboard_shortcut(key: &str, ctrl: bool, meta: bool, typing: bool) -> (r: Option<Shortcut>)
    ensures
        r == (if typing {
            None
        } else {
            shortcut_for(key@, ctrl || meta)
        }),
{
    if typing {
        return None;
    }
    let command_held = ctrl || meta;
    if same_text(key, " ") {
        Some(Shortcut::TogglePlay)
    } else if command_held && same_text(key, "ArrowRight") {
        Some(Shortcut::Next)
    } else if command_held && same_text(key, "ArrowLeft") {
        Some(Shortcut::Previous)
    } else {
        None
    }
}

/// A track row starts playback when clicked only while the network is
/// reachable or the track has an offline copy; otherwise it is greyed out.
pub fn row_playable(online: bool, downloaded: bool) -> (r: bool)
    ensures
        r == (online || downloaded),
{
    online || downloaded
}

/// What a track row shows in its download slot.
#[derive(Debug, Clone, Copy, PartialEq, Eq, Structural)]
pub enum DownloadSlot {
    /// Downloaded and kept offline by a downloaded playlist: indicator only.
    KeptOffline,
    /// Downloaded: a button that removes the offline copy.
    RemoveDownload,
    /// In flight: a spinner.
    Downloading,
    /// The last attempt failed: a button that retries.
    Retry,
    /// Online and not downloaded: a button that downloads.
    Download,
    /// Offline and not downloaded: nothing.
    Empty,
}

/// The download slot for a row, by the first that holds: kept offline by a
/// playlist, downloaded, downloading, failed, online.
pub open spec fn slot_for(downloaded: bool, pinned: bool, downloading: bool, failed: bool, online: bool) -> DownloadSlot {
    if downloaded && pinned {
        DownloadSlot::KeptOffline
    } else if downloaded {
        DownloadSlot::RemoveDownload
    } else if downloading {
        DownloadSlot::Downloading
    } else if failed {
        DownloadSlot::Retry
    } else if online {
        DownloadSlot::Download
    } else {
        DownloadSlot::Empty
    }
}

/// Pick the row's download slot (see [`slot_for`]).
pub fn row_download_slot(downloaded: bool, pinned: bool, downloading: bool, failed: bool, online: bool) -> (r: DownloadSlot)
    ensures
        r == slot_for(downloaded, pinned, downloading, failed, online),
{
    if downloaded && pinned {
        DownloadSlot::KeptOffline
    } else if downloaded {
        DownloadSlot::RemoveDownload
    } else if downloading {
        DownloadSlot::Downloading
    } else if failed {
        DownloadSlot::Retry
    } else if online {
        DownloadSlot::Download
    } else {
        DownloadSlot::Empty
    }
}

/// The offline-copy entry of a row's menu.
#[derive(Debug, Clone, Copy, PartialEq, Eq, Structural)]
pub enum DownloadMenuEntry {
    /// "Kept offline by a playlist", which does nothing.
    KeptOffline,
    /// "Remove download".
    RemoveDownload,
    /// "Downloading…", which does nothing.
    Downloading,
    /// "Retry download".
    Retry,
    /// "Download".
    Download,
}

/// The menu entry for a row: as the slot, except that "Download" is offered
/// whether or not the network is reachable.
pub open spec fn menu_entry_for(downloaded: bool, pinned: bool, downloading: bool, failed: bool) -> DownloadMenuEntry {
    if downloaded && pinned {
        DownloadMenuEntry::KeptOffline
    } else if downloaded {
        DownloadMenuEntry::RemoveDownload
    } else if downloading {
        DownloadMenuEntry::Downloading
    } else if failed {
        DownloadMenuEntry::Retry
    } else {
        DownloadMenuEntry::Download
    }
}

/// Pick the row menu's offline-copy entry (see [`menu_entry_for`]).
pub fn row_download_menu_entry(downloaded: bool, pinned: bool, downloading: bool, failed: bool) -> (r: DownloadMenuEntry)
    ensures
        r == menu_entry_for(downloaded, pinned, downloading, failed),
{
    if downloaded && pinned {
        DownloadMenuEntry::KeptOffline
    } else if downloaded {
        DownloadMenuEntry::RemoveDownload
    } else if downloading {
        DownloadMenuEntry::Downloading
    } else if failed {
        DownloadMenuEntry::Retry
    } else {
        DownloadMenuEntry::Download
    }
}

/// A copy kept offline by a playlist can never be removed from its row,
/// neither from the slot nor from the menu.
pub proof fn lemma_pinned_copy_not_removable(downloading: bool, failed: bool, online: bool)
    ensures
        slot_for(true, true, downloading, failed, online) != DownloadSlot::RemoveDownload,
        menu_entry_for(true, true, downloading, failed) != DownloadMenuEntry::RemoveDownload,
{
}

} // verus!
