//! Rules the interface applies to collections: which offline copies are
//! pinned by fully downloaded playlists (and so cannot be removed one by
//! one), how an artist's releases are grouped, and the Play and Download
//! buttons atop a collection.

use vstd::prelude::*;

use crate::ids::id_set;
use crate::model::{AlbumSummary, PlaybackState, Playlist, Track};
use crate::offline::{all_downloaded, answers_all, answers_by_text, fully_downloaded, says_yes};
use crate::player::state::has_id;
use crate::text::{dec_digits, joined, push_decimal, views};

verus! {

broadcast use vstd::string::group_string_axioms;

/// Playlist `p` pins the offline copy of track `id`: it holds the track and
/// is fully downloaded.
pub open spec fn pins<F: Fn(&str) -> bool>(p: Playlist, id: Seq<char>, is_downloaded: F) -> bool {
    has_id(p.tracks@, id) && fully_downloaded(p.tracks@, is_downloaded)
}

/// The playlists of `s` that pin track `id`, in order.
pub open spec fn pinning<F: Fn(&str) -> bool>(s: Seq<Playlist>, id: Seq<char>, is_downloaded: F) -> Seq<Playlist> {
    s.filter(|p: Playlist| pins(p, id, is_downloaded))
}

/// The names of the playlists that keep track `id` offline, in order:
/// removing its download would break their offline copy, so it is refused
/// while any is listed.
pub fn removal_blockers<F: Fn(&str) -> bool>(playlists: &Vec<Playlist>, id: &str, is_downloaded: F) -> (r: Vec<String>)
    requires
        answers_all(is_downloaded),
        answers_by_text(is_downloaded),
    ensures
        r@ == pinning(playlists@, id@, is_downloaded).map_values(|p: Playlist| p.name),
{
    let ghost pred = |p: Playlist| pins(p, id@, is_downloaded);
    let mut out: Vec<String> = Vec::new();
    let mut i: usize = 0;
    while i < playlists.len()
        invariant
            i <= playlists@.len(),
            answers_all(is_downloaded),
            answers_by_text(is_downloaded),
            pred == (|p: Playlist| pins(p, id@, is_downloaded)),
            out@ == playlists@.take(i as int).filter(pred).map_values(|p: Playlist| p.name),
        decreases playlists.len() - i,
    {
        let p = &playlists[i];
        proof {
            assert(playlists@.take(i + 1).drop_last() =~= playlists@.take(i as int));
            assert(playlists@.take(i + 1).last() == playlists@[i as int]);
            reveal_with_fuel(Seq::<_>::filter, 1);
        }
        let ghost before = out@;
        if holds_track_id(&p.tracks, id) && all_downloaded(&p.tracks, &is_downloaded) {
            out.push(p.name.clone());
            proof {
                assert(playlists@.take(i + 1).filter(pred) == playlists@.take(i as int).filter(pred).push(
                    playlists@[i as int],
                ));
                assert(out@ =~= playlists@.take(i + 1).filter(pred).map_values(|p: Playlist| p.name));
            }
        }
        i = i + 1;
    }
    proof {
        assert(playlists@.take(playlists@.len() as int) =~= playlists@);
    }
    out
}

fn holds_track_id(tracks: &Vec<crate::model::Track>, id: &str) -> (r: bool)
    ensures
        r == has_id(tracks@, id@),
{
    let key = id.to_owned();
    crate::player::state::queue_has_id(tracks, &key)
}

/// `t` in curly double quotes.
pub open spec fn curly(t: Seq<char>) -> Seq<char> {
    "\u{201c}"@ + t + "\u{201d}"@
}

/// The notice shown when removing a download is refused because the
/// playlists named `names` keep it offline.
pub open spec fn blocked_notice(names: Seq<Seq<char>>) -> Seq<char> {
    "This song is kept offline in "@ + joined(names.map_values(|n: Seq<char>| curly(n)), ", "@) + ". Remove it from "@
        + (if names.len() == 1 {
        "that playlist"@
    } else {
        "those playlists"@
    }) + " before deleting the download."@
}

/// The notice for a refused download removal (see [`blocked_notice`]).
pub fn removal_blocked_notice(names: &Vec<String>) -> (r: String)
    ensures
        r@ == blocked_notice(views(names@)),
{
    let mut s = String::new();
    s.append("This song is kept offline in ");
    let ghost quoted = views(names@).map_values(|n: Seq<char>| curly(n));
    let ghost head = s@;
    let mut i: usize = 0;
    while i < names.len()
        invariant
            i <= names@.len(),
            quoted == views(names@).map_values(|n: Seq<char>| curly(n)),
            head == "This song is kept offline in "@,
            s@ == head + joined(quoted.take(i as int), ", "@),
        decreases names.len() - i,
    {
        let ghost before = quoted.take(i as int);
        let ghost after = quoted.take(i + 1);
        let ghost prev = s@;
        proof {
            assert(after.drop_last() =~= before);
            assert(after.last() == curly(names@[i as int]@));
        }
        if i > 0 {
            s.append(", ");
        } else {
            assert(after =~= seq![curly(names@[0]@)]);
        }
        s.append("\u{201c}");
        s.append(names[i].as_str());
        s.append("\u{201d}");
        proof {
            if i > 0 {
                assert(s@ =~= prev + ", "@ + curly(names@[i as int]@));
            } else {
                assert(s@ =~= prev + curly(names@[i as int]@));
            }
        }
        i = i + 1;
    }
    proof {
        assert(quoted.take(names@.len() as int) =~= quoted);
    }
    s.append(". Remove it from ");
    if names.len() == 1 {
        s.append("that playlist");
    } else {
        s.append("those playlists");
    }
    s.append(" before deleting the download.");
    assert(s@ =~= blocked_notice(views(names@)));
    s
}

/// The IDs whose offline copies some fully downloaded playlist pins.
pub open spec fn pinned_set<F: Fn(&str) -> bool>(s: Seq<Playlist>, is_downloaded: F) -> Set<Seq<char>> {
    Set::new(|id: Seq<char>| exists|k: int| 0 <= k < s.len() && #[trigger] pins(s[k], id, is_downloaded))
}

/// The IDs of every track of every fully downloaded playlist: their rows show
/// a plain indicator instead of a remove button.
pub fn pinned_ids<F: Fn(&str) -> bool>(playlists: &Vec<Playlist>, is_downloaded: F) -> (r: Vec<String>)
    requires
        answers_all(is_downloaded),
        answers_by_text(is_downloaded),
    ensures
        id_set(r@) == pinned_set(playlists@, is_downloaded),
{
    let mut out: Vec<String> = Vec::new();
    let mut i: usize = 0;
    while i < playlists.len()
        invariant
            i <= playlists@.len(),
            answers_all(is_downloaded),
            answers_by_text(is_downloaded),
            id_set(out@) == pinned_set(playlists@.take(i as int), is_downloaded),
        decreases playlists.len() - i,
    {
        let p = &playlists[i];
        let ghost before = out@;
        let full = all_downloaded(&p.tracks, &is_downloaded);
        if full {
            let mut j: usize = 0;
            while j < p.tracks.len()
                invariant
                    j <= p.tracks@.len(),
                    out@ == before + views_of_ids(p.tracks@.take(j as int)),
                decreases p.tracks.len() - j,
            {
                out.push(p.tracks[j].id.clone());
                proof {
                    assert(p.tracks@.take(j + 1).drop_last() =~= p.tracks@.take(j as int));
                    assert(views_of_ids(p.tracks@.take(j + 1)) =~= views_of_ids(p.tracks@.take(j as int)).push(
                        p.tracks@[j as int].id,
                    ));
                }
                j = j + 1;
            }
            proof {
                assert(p.tracks@.take(p.tracks@.len() as int) =~= p.tracks@);
            }
        }
        proof {
            let pre = playlists@.take(i as int);
            let post = playlists@.take(i + 1);
            assert forall|id: Seq<char>| id_set(out@).contains(id) <==> pinned_set(post, is_downloaded).contains(id) by {
                if id_set(out@).contains(id) {
                    let k = choose|k: int| 0 <= k < out@.len() && (#[trigger] out@[k])@ == id;
                    if k < before.len() {
                        assert(out@[k] == before[k]);
                        assert(id_set(before).contains(id));
                        let q = choose|q: int| 0 <= q < pre.len() && #[trigger] pins(pre[q], id, is_downloaded);
                        assert(post[q] == pre[q]);
                    } else {
                        let t = k - before.len();
                        assert(out@[k] == p.tracks@[t].id);
                        assert(post[i as int] == *p);
                        assert(pins(post[i as int], id, is_downloaded));
                    }
                }
                if pinned_set(post, is_downloaded).contains(id) {
                    let q = choose|q: int| 0 <= q < post.len() && #[trigger] pins(post[q], id, is_downloaded);
                    if q < i {
                        assert(post[q] == pre[q]);
                        assert(pinned_set(pre, is_downloaded).contains(id));
                        let k = choose|k: int| 0 <= k < before.len() && (#[trigger] before[k])@ == id;
                        assert(out@[k] == before[k]);
                    } else {
                        assert(post[q] == *p);
                        let t = choose|t: int| 0 <= t < p.tracks@.len() && (#[trigger] p.tracks@[t]).id@ == id;
                        assert(out@[before.len() + t] == p.tracks@[t].id);
                    }
                }
            }
            assert(id_set(out@) =~= pinned_set(post, is_downloaded));
        }
        i = i + 1;
    }
    proof {
        assert(playlists@.take(playlists@.len() as int) =~= playlists@);
    }
    out
}

/// The ID strings of `tracks`, in order.
pub open spec fn views_of_ids(tracks: Seq<crate::model::Track>) -> Seq<String> {
    tracks.map_values(|t: crate::model::Track| t.id)
}

/// The remove button and its guard mirror each other: a track's row hides
/// the remove button exactly when removing its download would be refused.
pub proof fn lemma_pinned_iff_removal_blocked<F: Fn(&str) -> bool>(
    playlists: Seq<Playlist>,
    id: Seq<char>,
    is_downloaded: F,
)
    ensures
        pinned_set(playlists, is_downloaded).contains(id) <==> pinning(playlists, id, is_downloaded).len() > 0,
{
    let pred = |p: Playlist| pins(p, id, is_downloaded);
    if pinned_set(playlists, is_downloaded).contains(id) {
        let k = choose|k: int| 0 <= k < playlists.len() && #[trigger] pins(playlists[k], id, is_downloaded);
        assert(pred(playlists[k]));
        playlists.lemma_filter_contains(pred, k);
        assert(playlists.filter(pred).contains(playlists[k]));
    }
    if pinning(playlists, id, is_downloaded).len() > 0 {
        let f = playlists.filter(pred);
        assert(f.contains(f[0]));
        playlists.lemma_filter_pred(pred, 0);
        playlists.lemma_filter_contains_rev(pred, f[0]);
        let k = choose|k: int| 0 <= k < playlists.len() && playlists[k] == f[0];
        assert(pins(playlists[k], id, is_downloaded));
    }
}

/// An artist's releases split into singles and the rest (albums and EPs),
/// each in order.
pub fn split_singles(albums: Vec<AlbumSummary>) -> (r: (Vec<AlbumSummary>, Vec<AlbumSummary>))
    ensures
        r.0@ == albums@.filter(|a: AlbumSummary| a.album_type@ == "Single"@),
        r.1@ == albums@.filter(|a: AlbumSummary| a.album_type@ != "Single"@),
{
    let ghost all = albums@;
    let ghost single = |a: AlbumSummary| a.album_type@ == "Single"@;
    let ghost other = |a: AlbumSummary| a.album_type@ != "Single"@;
    let label = "Single".to_string();
    let mut singles: Vec<AlbumSummary> = Vec::new();
    let mut rest: Vec<AlbumSummary> = Vec::new();
    for a in it: albums
        invariant
            it.seq() == all,
            label@ == "Single"@,
            single == (|a: AlbumSummary| a.album_type@ == "Single"@),
            other == (|a: AlbumSummary| a.album_type@ != "Single"@),
            singles@ == all.take(it.index()).filter(single),
            rest@ == all.take(it.index()).filter(other),
    {
        let ghost idx = it.index();
        let ghost av = a;
        proof {
            assert(all.take(idx + 1).drop_last() =~= all.take(idx));
            assert(all.take(idx + 1).last() == av);
            reveal_with_fuel(Seq::<_>::filter, 1);
        }
        if a.album_type == label {
            singles.push(a);
        } else {
            rest.push(a);
        }
    }
    proof {
        assert(all.take(all.len() as int) =~= all);
    }
    (singles, rest)
}

/// The counter on a collection's download button while `done` of `total`
/// tracks are downloaded: the ordinal of the one in flight.
pub fn downloading_label(done: usize, total: usize) -> (r: String)
    requires
        done < usize::MAX,
    ensures
        r@ == "Downloading "@ + dec_digits((if done + 1 < total { done + 1 } else { total as int }) as nat) + "/"@
            + dec_digits(total as nat),
{
    let n = if done + 1 < total {
        done + 1
    } else {
        total
    };
    let mut s = String::new();
    s.append("Downloading ");
    push_decimal(&mut s, n as u64);
    s.append("/");
    push_decimal(&mut s, total as u64);
    s
}

/// How many of `tracks` `f` says yes for.
pub open spec fn count_yes<F: Fn(&str) -> bool>(tracks: Seq<Track>, f: F) -> nat
    decreases tracks.len(),
{
    if tracks.len() == 0 {
        0
    } else {
        count_yes(tracks.drop_last(), f) + if says_yes(f, tracks.last().id@) {
            1nat
        } else {
            0nat
        }
    }
}

/// How many of `tracks` `f` says yes for (downloaded ones, or ones being
/// downloaded).
pub fn count_tracks<F: Fn(&str) -> bool>(tracks: &Vec<Track>, f: F) -> (r: usize)
    requires
        answers_all(f),
        answers_by_text(f),
    ensures
        r == count_yes(tracks@, f),
{
    let mut n: usize = 0;
    let mut i: usize = 0;
    while i < tracks.len()
        invariant
            i <= tracks@.len(),
            answers_all(f),
            answers_by_text(f),
            n == count_yes(tracks@.take(i as int), f),
            n <= i,
        decreases tracks.len() - i,
    {
        proof {
            assert(tracks@.take(i + 1).drop_last() =~= tracks@.take(i as int));
            assert(tracks@.take(i + 1).last() == tracks@[i as int]);
        }
        if crate::offline::ask(&f, &tracks[i].id) {
            n = n + 1;
        }
        i = i + 1;
    }
    proof {
        assert(tracks@.take(tracks@.len() as int) =~= tracks@);
    }
    n
}

/// The download button atop a collection.
pub enum DownloadButton {
    /// Downloads are running; the label counts them.
    InProgress(String),
    /// Every track is downloaded: offers removing them.
    Downloaded,
    /// Offers downloading the collection.
    Offer,
}

/// The download button for a collection of `total` tracks of which `done`
/// are downloaded and `active` are being downloaded.
pub fn download_button(done: usize, active: usize, total: usize) -> (r: DownloadButton)
    requires
        done < usize::MAX,
    ensures
        active > 0 ==> (r matches DownloadButton::InProgress(l) && l@ == "Downloading "@ + dec_digits(
            (if done + 1 < total { done + 1 } else { total as int }) as nat,
        ) + "/"@ + dec_digits(total as nat)),
        active == 0 && done == total ==> r is Downloaded,
        active == 0 && done != total ==> r is Offer,
{
    if active > 0 {
        DownloadButton::InProgress(downloading_label(done, total))
    } else if done == total {
        DownloadButton::Downloaded
    } else {
        DownloadButton::Offer
    }
}

/// Whether the collection tagged `source` is the one loaded in the player
/// (so its Play button toggles playback), and whether that button shows
/// Pause.
pub fn play_button(source: &Option<String>, queue_source: &Option<String>, state: PlaybackState) -> (r: (bool, bool))
    ensures
        r.0 == (source is Some && queue_source is Some && source->0@ == queue_source->0@ && (state
            == PlaybackState::Playing || state == PlaybackState::Paused || state == PlaybackState::Loading)),
        r.1 == (r.0 && (state == PlaybackState::Playing || state == PlaybackState::Loading)),
{
    let same = match (source, queue_source) {
        (Some(a), Some(b)) => *a == *b,
        _ => false,
    };
    let live = match state {
        PlaybackState::Playing => true,
        PlaybackState::Paused => true,
        PlaybackState::Loading => true,
        PlaybackState::Stopped => false,
    };
    let current = same && live;
    let pause = current && match state {
        PlaybackState::Playing => true,
        PlaybackState::Loading => true,
        _ => false,
    };
    (current, pause)
}

/// Where playing a collection of `len` tracks starts: under shuffle, at the
/// index the random draw `draw` picks; otherwise at the first track.
pub fn collection_start(shuffle: bool, len: usize, draw: u64) -> (r: usize)
    ensures
        shuffle && len > 1 ==> r == (draw as usize) % len,
        !(shuffle && len > 1) ==> r == 0,
{
    if shuffle && len > 1 {
        (draw as usize) % len
    } else {
        0
    }
}

} // verus!
