//! Keeping playlists offline: which playlists count as kept offline, and how
//! failed downloads those playlists depend on are retried with backoff.

use vstd::prelude::*;

use crate::downloads::{given_up, released, Downloads};
use crate::library::{find_playlist, playlist_index};
use crate::model::{Playlist, Track};
use crate::player::state::has_id;
use crate::text::{dec_digits, joined, push_decimal, views};

verus! {

/// Base pause, in seconds, between consecutive failed retry passes.
pub const PIN_RETRY_DELAY_SECS: u64 = 30;

/// Longest pause, in seconds, between retry passes.
pub const PIN_RETRY_DELAY_MAX_SECS: u64 = 300;

/// Retry passes a kept-offline download gets before it is marked failed.
pub const PIN_RETRY_MAX_PASSES: u32 = 5;

/// `2^e`.
pub open spec fn two_to(e: nat) -> nat
    decreases e,
{
    if e == 0 {
        1
    } else {
        2 * two_to((e - 1) as nat)
    }
}

/// Pause before retry pass `attempt + 1`, in seconds: none after the first
/// pass, then 30 s doubling per failed pass (the doubling stops after eight
/// steps), never more than 300 s.
pub open spec fn pin_delay(attempt: nat) -> nat {
    if attempt == 0 {
        0
    } else {
        let e: nat = if attempt - 1 < 8 {
            (attempt - 1) as nat
        } else {
            8
        };
        let d = 30 * two_to(e);
        if d < 300 {
            d
        } else {
            300
        }
    }
}

/// Backoff after pass `attempt` (0-based), in seconds: the first requeue runs
/// at once; later failed passes wait 30 s, 1 min, 2 min, 4 min, then 5 min.
pub fn pin_retry_delay(attempt: u32) -> (r: u64)
    ensures
        r == pin_delay(attempt as nat),
{
    if attempt == 0 {
        return 0;
    }
    let e: u32 = if attempt - 1 < 8 {
        attempt - 1
    } else {
        8
    };
    let mut mult: u64 = 1;
    let mut k: u32 = 0;
    while k < e
        invariant
            k <= e <= 8,
            mult == two_to(k as nat),
            mult <= 256,
        decreases e - k,
    {
        proof {
            lemma_two_to_small(k as nat);
        }
        mult = mult * 2;
        k = k + 1;
    }
    let d = PIN_RETRY_DELAY_SECS * mult;
    if d < PIN_RETRY_DELAY_MAX_SECS {
        d
    } else {
        PIN_RETRY_DELAY_MAX_SECS
    }
}

proof fn lemma_two_to_small(e: nat)
    requires
        e < 8,
    ensures
        two_to(e + 1) <= 256,
{
    lemma_two_to_monotone(e + 1, 8);
    assert(two_to(8) == 256) by {
        reveal_with_fuel(two_to, 9);
    }
}

proof fn lemma_two_to_monotone(a: nat, b: nat)
    requires
        a <= b,
    ensures
        two_to(a) <= two_to(b),
    decreases b,
{
    if a < b {
        lemma_two_to_monotone(a, (b - 1) as nat);
    }
}

/// The retry pause never shrinks as failed passes pile up, and never exceeds
/// five minutes.
pub proof fn lemma_pin_delay_monotone_and_capped(a: nat, b: nat)
    requires
        a <= b,
    ensures
        pin_delay(a) <= pin_delay(b),
        pin_delay(b) <= 300,
{
    if a > 0 {
        let ea: nat = if a - 1 < 8 {
            (a - 1) as nat
        } else {
            8
        };
        let eb: nat = if b - 1 < 8 {
            (b - 1) as nat
        } else {
            8
        };
        lemma_two_to_monotone(ea, eb);
    }
}

/// The retry pauses start with none, then 30 seconds, and each further
/// failed pass doubles the pause until it reaches five minutes.
pub proof fn lemma_pin_delay_doubles_to_the_cap(a: nat)
    ensures
        pin_delay(0) == 0,
        pin_delay(1) == 30,
        a >= 1 ==> pin_delay(a + 1) == if 2 * pin_delay(a) < 300 {
            2 * pin_delay(a)
        } else {
            300
        },
{
    if a >= 1 {
        let e: nat = if a - 1 < 8 {
            (a - 1) as nat
        } else {
            8
        };
        if a - 1 < 8 {
            assert(two_to(e + 1) == 2 * two_to(e));
            if e + 1 == 8 {
                assert(two_to(8) == 256) by {
                    reveal_with_fuel(two_to, 9);
                }
            }
            lemma_two_to_monotone(e, 7);
            assert(two_to(7) == 128) by {
                reveal_with_fuel(two_to, 8);
            }
        } else {
            assert(two_to(8) == 256) by {
                reveal_with_fuel(two_to, 9);
            }
        }
    }
}

/// `f` answers by the text alone: calls on strings with the same characters
/// never give different answers.
pub open spec fn answers_by_text<F: Fn(&str) -> bool>(f: F) -> bool {
    forall|x: &str, y: &str, a: bool, b: bool|
        #![trigger call_ensures(f, (x,), a), call_ensures(f, (y,), b)]
        x@ == y@ && call_ensures(f, (x,), a) && call_ensures(f, (y,), b) ==> a == b
}

/// `f` can answer for every string.
pub open spec fn answers_all<F: Fn(&str) -> bool>(f: F) -> bool {
    forall|x: &str| #[trigger] f.requires((x,))
}

/// `f` says yes for the text `s`.
pub open spec fn says_yes<F: Fn(&str) -> bool>(f: F, s: Seq<char>) -> bool {
    exists|x: &str| x@ == s && #[trigger] call_ensures(f, (x,), true)
}

/// The tracks of `tracks` outside the batch are all downloaded, and there is
/// at least one of them.
pub open spec fn established<F: Fn(&str) -> bool, G: Fn(&str) -> bool>(
    tracks: Seq<Track>,
    is_downloaded: F,
    in_batch: G,
) -> bool {
    &&& forall|k: int|
        0 <= k < tracks.len() && !says_yes(in_batch, (#[trigger] tracks[k]).id@) ==> says_yes(
            is_downloaded,
            tracks[k].id@,
        )
    &&& exists|k: int| 0 <= k < tracks.len() && !says_yes(in_batch, (#[trigger] tracks[k]).id@)
}

/// Ask `f` about `s`, learning its answer for the text of `s`.
pub(crate) fn ask<F: Fn(&str) -> bool>(f: &F, s: &String) -> (r: bool)
    requires
        answers_all(*f),
        answers_by_text(*f),
    ensures
        r == says_yes(*f, s@),
{
    let x = s.as_str();
    let r = f(x);
    proof {
        if !r {
            assert forall|y: &str| y@ == s@ implies !call_ensures(*f, (y,), true) by {
                if call_ensures(*f, (y,), true) {
                    assert(call_ensures(*f, (x,), false));
                }
            }
        }
    }
    r
}

/// Whether `tracks` contains a track with ID `id`.
fn contains_track(tracks: &Vec<Track>, id: &str) -> (r: bool)
    ensures
        r == has_id(tracks@, id@),
{
    let key = id.to_owned();
    let mut k: usize = 0;
    while k < tracks.len()
        invariant
            k <= tracks@.len(),
            key@ == id@,
            forall|j: int| 0 <= j < k ==> (#[trigger] tracks@[j]).id@ != id@,
        decreases tracks.len() - k,
    {
        if tracks[k].id == key {
            return true;
        }
        k = k + 1;
    }
    false
}

/// Whether the tracks outside the batch are all downloaded, with at least one.
fn is_established<F: Fn(&str) -> bool, G: Fn(&str) -> bool>(
    tracks: &Vec<Track>,
    is_downloaded: &F,
    in_batch: &G,
) -> (r: bool)
    requires
        answers_all(*is_downloaded),
        answers_by_text(*is_downloaded),
        answers_all(*in_batch),
        answers_by_text(*in_batch),
    ensures
        r == established(tracks@, *is_downloaded, *in_batch),
{
    let mut found = false;
    let mut k: usize = 0;
    while k < tracks.len()
        invariant
            k <= tracks@.len(),
            answers_all(*is_downloaded),
            answers_by_text(*is_downloaded),
            answers_all(*in_batch),
            answers_by_text(*in_batch),
            forall|j: int|
                0 <= j < k && !says_yes(*in_batch, (#[trigger] tracks@[j]).id@) ==> says_yes(
                    *is_downloaded,
                    tracks@[j].id@,
                ),
            found == exists|j: int| 0 <= j < k && !says_yes(*in_batch, (#[trigger] tracks@[j]).id@),
        decreases tracks.len() - k,
    {
        let t = &tracks[k];
        if !ask(in_batch, &t.id) {
            if !ask(is_downloaded, &t.id) {
                return false;
            }
            found = true;
        }
        k = k + 1;
    }
    found
}

/// Whether the playlist holding track `id` is being kept fully offline: some
/// playlist contains `id`, every one of its tracks that is not `in_batch` is
/// downloaded, and there is at least one such established track. A fresh
/// download of a whole playlist (every track in the batch) does not qualify.
pub fn playlist_kept_offline<F: Fn(&str) -> bool, G: Fn(&str) -> bool>(
    playlists: &[Playlist],
    is_downloaded: F,
    id: &str,
    in_batch: G,
) -> (r: bool)
    requires
        answers_all(is_downloaded),
        answers_by_text(is_downloaded),
        answers_all(in_batch),
        answers_by_text(in_batch),
    ensures
        r == exists|p: int|
            0 <= p < playlists@.len() && has_id((#[trigger] playlists@[p]).tracks@, id@) && established(
                playlists@[p].tracks@,
                is_downloaded,
                in_batch,
            ),
{
    let mut p: usize = 0;
    while p < playlists.len()
        invariant
            p <= playlists@.len(),
            answers_all(is_downloaded),
            answers_by_text(is_downloaded),
            answers_all(in_batch),
            answers_by_text(in_batch),
            forall|q: int|
                0 <= q < p ==> !(has_id((#[trigger] playlists@[q]).tracks@, id@) && established(
                    playlists@[q].tracks@,
                    is_downloaded,
                    in_batch,
                )),
        decreases playlists.len() - p,
    {
        let pl = &playlists[p];
        if contains_track(&pl.tracks, id) && is_established(&pl.tracks, &is_downloaded, &in_batch) {
            return true;
        }
        p = p + 1;
    }
    false
}

/// A fresh download of a whole playlist is never "kept offline": when every
/// track of it is in the batch, no established offline track remains, so a
/// total failure is not retried forever.
pub proof fn lemma_fresh_download_not_kept_offline<F: Fn(&str) -> bool, G: Fn(&str) -> bool>(
    tracks: Seq<Track>,
    is_downloaded: F,
    in_batch: G,
)
    requires
        forall|k: int| 0 <= k < tracks.len() ==> says_yes(in_batch, (#[trigger] tracks[k]).id@),
    ensures
        !established(tracks, is_downloaded, in_batch),
{
}

/// Every track of the playlist is downloaded, and it has at least one.
pub open spec fn fully_downloaded<F: Fn(&str) -> bool>(tracks: Seq<Track>, is_downloaded: F) -> bool {
    tracks.len() > 0 && forall|k: int|
        0 <= k < tracks.len() ==> says_yes(is_downloaded, (#[trigger] tracks[k]).id@)
}

/// Whether every track of `tracks` is downloaded, and there is one.
pub(crate) fn all_downloaded<F: Fn(&str) -> bool>(tracks: &Vec<Track>, is_downloaded: &F) -> (r: bool)
    requires
        answers_all(*is_downloaded),
        answers_by_text(*is_downloaded),
    ensures
        r == fully_downloaded(tracks@, *is_downloaded),
{
    if tracks.len() == 0 {
        return false;
    }
    let mut k: usize = 0;
    while k < tracks.len()
        invariant
            k <= tracks@.len(),
            answers_all(*is_downloaded),
            answers_by_text(*is_downloaded),
            forall|j: int| 0 <= j < k ==> says_yes(*is_downloaded, (#[trigger] tracks@[j]).id@),
        decreases tracks.len() - k,
    {
        if !ask(is_downloaded, &tracks[k].id) {
            return false;
        }
        k = k + 1;
    }
    true
}

/// Every track of `p` is downloaded (and it has any): such a playlist pins its
/// tracks' offline copies.
pub fn playlist_fully_downloaded<F: Fn(&str) -> bool>(p: &Playlist, is_downloaded: F) -> (r: bool)
    requires
        answers_all(is_downloaded),
        answers_by_text(is_downloaded),
    ensures
        r == fully_downloaded(p.tracks@, is_downloaded),
{
    all_downloaded(&p.tracks, &is_downloaded)
}

/// Adding `track_id` to playlist `playlist_id` should also download it: the
/// playlist exists, does not hold the track yet, and is fully downloaded (so
/// it stays fully available offline). Judged before the track is added.
pub fn keep_offline_on_add<F: Fn(&str) -> bool>(
    playlists: &Vec<Playlist>,
    playlist_id: &str,
    track_id: &str,
    is_downloaded: F,
) -> (r: bool)
    requires
        answers_all(is_downloaded),
        answers_by_text(is_downloaded),
    ensures
        r == match playlist_index(playlists@, playlist_id@) {
            Some(i) => !has_id(playlists@[i].tracks@, track_id@) && fully_downloaded(
                playlists@[i].tracks@,
                is_downloaded,
            ),
            None => false,
        },
{
    let key = playlist_id.to_owned();
    match find_playlist(playlists, &key) {
        Some(i) => {
            let p = &playlists[i];
            !contains_track(&p.tracks, track_id) && playlist_fully_downloaded(p, is_downloaded)
        },
        None => false,
    }
}

/// "track" or "tracks", for `n` of them.
pub open spec fn track_noun(n: nat) -> Seq<char> {
    if n == 1 {
        "track"@
    } else {
        "tracks"@
    }
}

/// `t` in curly double quotes.
pub open spec fn quoted(t: Seq<char>) -> Seq<char> {
    "\u{201c}"@ + t + "\u{201d}"@
}

/// The one notice after a first pass in which `n` kept-offline downloads failed.
pub open spec fn retry_notice(n: nat) -> Seq<char> {
    "Couldn\u{2019}t download "@ + dec_digits(n) + " "@ + track_noun(n) + " \u{2014} retrying in the background."@
}

/// The notice when giving up on the tracks titled `titles` after `tries` passes.
pub open spec fn give_up_notice(titles: Seq<Seq<char>>, tries: nat) -> Seq<char> {
    "Gave up downloading "@ + dec_digits(titles.len()) + " "@ + track_noun(titles.len()) + " after "@
        + dec_digits(tries) + " tries \u{2014} "@ + joined(titles.map_values(|t: Seq<char>| quoted(t)), ", "@)
        + " may be unavailable. Retry from a track's menu."@
}

/// What follows a download pass.
pub enum PassEnd {
    /// Nothing failed that a kept-offline playlist depends on.
    Done,
    /// Enough passes failed: mark the stragglers failed and show this notice.
    GiveUp(String),
    /// Retry the stragglers in pass `next_attempt` after `delay_secs`
    /// seconds, first showing `notice` if there is one.
    Retry { notice: Option<String>, delay_secs: u64, next_attempt: u32 },
}

fn noun(n: usize) -> (r: &'static str)
    ensures
        r@ == track_noun(n as nat),
{
    if n == 1 {
        "track"
    } else {
        "tracks"
    }
}

fn retry_notice_text(n: usize) -> (r: String)
    ensures
        r@ == retry_notice(n as nat),
{
    let mut s = String::new();
    s.append("Couldn\u{2019}t download ");
    push_decimal(&mut s, n as u64);
    s.append(" ");
    s.append(noun(n));
    s.append(" \u{2014} retrying in the background.");
    assert(s@ =~= retry_notice(n as nat));
    s
}

fn give_up_text(titles: &Vec<String>, tries: u64) -> (r: String)
    ensures
        r@ == give_up_notice(views(titles@), tries as nat),
{
    let mut s = String::new();
    s.append("Gave up downloading ");
    push_decimal(&mut s, titles.len() as u64);
    s.append(" ");
    s.append(noun(titles.len()));
    s.append(" after ");
    push_decimal(&mut s, tries);
    s.append(" tries \u{2014} ");
    let ghost quoted_all = views(titles@).map_values(|t: Seq<char>| quoted(t));
    let mut i: usize = 0;
    while i < titles.len()
        invariant
            i <= titles@.len(),
            quoted_all == views(titles@).map_values(|t: Seq<char>| quoted(t)),
            s@ == "Gave up downloading "@ + dec_digits(titles@.len()) + " "@ + track_noun(titles@.len()) + " after "@
                + dec_digits(tries as nat) + " tries \u{2014} "@ + joined(quoted_all.take(i as int), ", "@),
        decreases titles.len() - i,
    {
        let ghost before = quoted_all.take(i as int);
        let ghost after = quoted_all.take(i + 1);
        let ghost head = s@;
        proof {
            assert(after.drop_last() =~= before);
            assert(after.last() == quoted(titles@[i as int]@));
        }
        if i > 0 {
            s.append(", ");
        } else {
            assert(after =~= seq![quoted(titles@[0]@)]);
        }
        s.append("\u{201c}");
        s.append(titles[i].as_str());
        s.append("\u{201d}");
        proof {
            if i > 0 {
                assert(s@ =~= head + ", "@ + quoted(titles@[i as int]@));
            } else {
                assert(s@ =~= head + quoted(titles@[i as int]@));
            }
        }
        i = i + 1;
    }
    proof {
        assert(quoted_all.take(titles@.len() as int) =~= quoted_all);
    }
    s.append(" may be unavailable. Retry from a track's menu.");
    assert(s@ =~= give_up_notice(views(titles@), tries as nat));
    s
}

/// Pass `attempt` (0-based) with `failed` failures is followed by another
/// pass: something failed and the passes allowed are not used up.
pub open spec fn retried_after(attempt: nat, failed: nat) -> bool {
    failed > 0 && attempt < PIN_RETRY_MAX_PASSES
}

/// A chain of download passes ends: pass `k` runs only if every earlier pass
/// was followed by a retry, so a chain whose pass `k` failed `failed[k]`
/// times has at most `PIN_RETRY_MAX_PASSES + 1` passes.
pub proof fn lemma_pass_chain_bounded(failed: Seq<nat>)
    requires
        forall|k: int| 0 <= k < failed.len() - 1 ==> retried_after(k as nat, #[trigger] failed[k]),
    ensures
        failed.len() <= PIN_RETRY_MAX_PASSES + 1,
{
    if failed.len() > PIN_RETRY_MAX_PASSES + 1 {
        assert(retried_after(PIN_RETRY_MAX_PASSES as nat, failed[PIN_RETRY_MAX_PASSES as int]));
    }
}

/// Decide what follows pass `attempt` (0-based) of kept-offline downloads,
/// given the titles of the tracks that failed in it: nothing when none did;
/// after the last allowed pass, give up with a notice naming them; otherwise
/// retry them after the backoff, with one coalesced notice after the first
/// pass only.
pub fn after_pass(attempt: u32, failed_titles: &Vec<String>) -> (r: PassEnd)
    requires
        attempt < u32::MAX,
    ensures
        (r is Retry) == retried_after(attempt as nat, failed_titles@.len()),
        failed_titles@.len() == 0 ==> r is Done,
        failed_titles@.len() > 0 && attempt >= PIN_RETRY_MAX_PASSES ==> (r matches PassEnd::GiveUp(m) && m@
            == give_up_notice(views(failed_titles@), (attempt + 1) as nat)),
        failed_titles@.len() > 0 && attempt < PIN_RETRY_MAX_PASSES ==> (r matches PassEnd::Retry {
            notice,
            delay_secs,
            next_attempt,
        } && delay_secs == pin_delay(attempt as nat) && next_attempt == attempt + 1 && (attempt == 0 <==> notice is Some)
            && (notice matches Some(n) ==> n@ == retry_notice(failed_titles@.len()))),
{
    if failed_titles.len() == 0 {
        return PassEnd::Done;
    }
    if attempt >= PIN_RETRY_MAX_PASSES {
        return PassEnd::GiveUp(give_up_text(failed_titles, attempt as u64 + 1));
    }
    let notice = if attempt == 0 {
        Some(retry_notice_text(failed_titles.len()))
    } else {
        None
    };
    PassEnd::Retry { notice, delay_secs: pin_retry_delay(attempt), next_attempt: attempt + 1 }
}

/// Settle a failed download of `id`: a track a kept-offline playlist depends
/// on has its claim released and is requeued (returns true); any other is
/// marked failed so a manual retry is offered (returns false).
pub fn settle_failed_download(downloads: &mut Downloads, id: &str, kept_offline: bool) -> (r: bool)
    requires
        old(downloads).wf(),
    ensures
        final(downloads).wf(),
        r == kept_offline,
        kept_offline ==> final(downloads)@ == released(old(downloads)@, id@),
        !kept_offline ==> final(downloads)@ == given_up(old(downloads)@, id@),
{
    if kept_offline {
        downloads.fail(id);
    } else {
        downloads.mark_failed(id);
    }
    kept_offline
}

/// The message shown when downloading the track titled `title` failed:
/// saving the file (`saving`) or fetching it, with `detail` from the error.
pub open spec fn failure_message(saving: bool, title: Seq<char>, detail: Seq<char>) -> Seq<char> {
    (if saving {
        "Could not save "@
    } else {
        "Could not download "@
    }) + quoted(title) + ": "@ + detail
}

/// The message for a failed download (see [`failure_message`]).
pub fn download_failure_message(saving: bool, title: &str, detail: &str) -> (r: String)
    ensures
        r@ == failure_message(saving, title@, detail@),
{
    let mut s = String::new();
    if saving {
        s.append("Could not save ");
    } else {
        s.append("Could not download ");
    }
    s.append("\u{201c}");
    s.append(title);
    s.append("\u{201d}");
    s.append(": ");
    s.append(detail);
    assert(s@ =~= failure_message(saving, title@, detail@));
    s
}

} // verus!
