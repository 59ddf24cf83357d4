//! Queue management and playback decisions.
//!
//! [`PlayerCore`] is the player's whole decision state: the queue, the current
//! index, shuffle/repeat modes and the shuffle history, plus the counters that
//! guard against stale downloads. The queue mutations live in [`queue`], the
//! next/previous choice in [`nav`], and the transitions driven by playback
//! events (start, fetch results, crossfade, position ticks) in [`playback`].
//! Times are kept in whole milliseconds.

pub mod state;
pub mod queue;
pub mod nav;
pub mod laws;
pub mod playback;

pub use queue::{AddOutcome, RemoveOutcome, append_tracks, insert_next, move_in_queue, remove_from_queue};

pub use state::PlayerCore;
