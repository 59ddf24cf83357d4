//! Rift's core: the music player's queue, navigation and playback decisions,
//! the user library, offline downloads and the playlists kept offline, the
//! conversion of YouTube Music catalog entries, stream fetching decisions,
//! the now-playing integrations, and the text and layout rules (playlist
//! links, version comparison, file names, times, drag-to-reorder) that the
//! desktop shell relies on.

pub mod model;
pub mod player;
mod random;
pub mod ids;
pub mod text;
pub mod downloads;
pub mod library;
pub mod import;
pub mod updates;
pub mod offline;
pub mod catalog;
pub mod fetch;
pub mod display;
pub mod settings;
pub mod presence;
pub mod collections;
pub mod reorder;
pub mod controls;
