//! Rules of the persisted settings that do not involve floating point: the
//! custom yt-dlp location and the preview-mode switch.

use vstd::prelude::*;

use crate::text::{trim, trimmed};

verus! {

broadcast use vstd::string::group_string_axioms;

/// The stored yt-dlp location for the input `path`: trimmed, with blank or
/// whitespace-only input meaning "unset" (auto-detect).
pub open spec fn stored_ytdlp_path(path: Option<Seq<char>>) -> Option<Seq<char>> {
    match path {
        Some(p) => if trimmed(p).len() == 0 {
            None
        } else {
            Some(trimmed(p))
        },
        None => None,
    }
}

/// Normalize a configured yt-dlp location (see [`stored_ytdlp_path`]).
pub fn normalize_ytdlp_path(path: Option<String>) -> (r: Option<String>)
    ensures
        match stored_ytdlp_path(
            match path {
                Some(p) => Some(p@),
                None => None,
            },
        ) {
            Some(p) => r is Some && r->0@ == p,
            None => r is None,
        },
{
    match path {
        Some(p) => {
            let t = trim(p.as_str());
            if t.as_str().unicode_len() == 0 {
                None
            } else {
                Some(t)
            }
        },
        None => None,
    }
}

/// Preview mode is on only in debug builds, when the switch variable is set
/// to something other than empty or `0`.
pub fn preview_mode_from(debug_build: bool, switch: Option<String>) -> (r: bool)
    ensures
        r == (debug_build && match switch {
            Some(v) => v@.len() > 0 && v@ != "0"@,
            None => false,
        }),
{
    if !debug_build {
        return false;
    }
    match switch {
        Some(v) => {
            let zero = "0".to_string();
            v.as_str().unicode_len() > 0 && v != zero
        },
        None => false,
    }
}

} // verus!
