//! The user library: liked songs, playlists and recently played. Each
//! mutation reports whether the library changed so the shell knows to
//! persist it.

use vstd::prelude::*;

use crate::model::{Library, Playlist, Track, TrackData, tracks_data};
use crate::player::queue::position_of_id;
use crate::player::state::{has_id, queue_has_id};
use crate::random::random_u64;
use crate::text::{hex16, hex16_digits};

verus! {

/// How many recently played tracks are kept.
pub const RECENT_CAP: usize = 30;

/// The library plus the mutations the interface offers on it.
pub struct LibraryStore {
    pub data: Library,
}

/// Index of the first element of `s` whose id is `id`.
pub open spec fn first_index(s: Seq<Track>, id: Seq<char>) -> Option<int> {
    if has_id(s, id) {
        Some(choose|k: int| 0 <= k < s.len() && s[k].id@ == id && forall|j: int| 0 <= j < k ==> (#[trigger] s[j]).id@ != id)
    } else {
        None
    }
}

/// Index of the first playlist of `s` whose id is `id`.
pub open spec fn playlist_index(s: Seq<Playlist>, id: Seq<char>) -> Option<int> {
    if exists|k: int| 0 <= k < s.len() && (#[trigger] s[k]).id@ == id {
        Some(choose|k: int| 0 <= k < s.len() && s[k].id@ == id && forall|j: int| 0 <= j < k ==> (#[trigger] s[j]).id@ != id)
    } else {
        None
    }
}

proof fn lemma_first_index(s: Seq<Track>, id: Seq<char>, k: int)
    requires
        0 <= k < s.len(),
        s[k].id@ == id,
        forall|j: int| 0 <= j < k ==> (#[trigger] s[j]).id@ != id,
    ensures
        first_index(s, id) == Some(k),
{
    assert(has_id(s, id));
    let c = choose|c: int| 0 <= c < s.len() && s[c].id@ == id && forall|j: int| 0 <= j < c ==> (#[trigger] s[j]).id@ != id;
    if c < k {
        assert(s[c].id@ != id);
    }
    if k < c {
        assert(s[k].id@ != id);
    }
}

proof fn lemma_playlist_index(s: Seq<Playlist>, id: Seq<char>, k: int)
    requires
        0 <= k < s.len(),
        s[k].id@ == id,
        forall|j: int| 0 <= j < k ==> (#[trigger] s[j]).id@ != id,
    ensures
        playlist_index(s, id) == Some(k),
{
    let c = choose|c: int| 0 <= c < s.len() && s[c].id@ == id && forall|j: int| 0 <= j < c ==> (#[trigger] s[j]).id@ != id;
    if c < k {
        assert(s[c].id@ != id);
    }
    if k < c {
        assert(s[k].id@ != id);
    }
}

/// Position of the first playlist of `v` with id `id`.
pub(crate) fn find_playlist(v: &Vec<Playlist>, id: &String) -> (r: Option<usize>)
    ensures
        r matches Some(k) ==> k < v@.len() && playlist_index(v@, id@) == Some(k as int),
        r is None ==> playlist_index(v@, id@) is None,
{
    let mut i: usize = 0;
    while i < v.len()
        invariant
            i <= v.len(),
            forall|j: int| 0 <= j < i ==> (#[trigger] v@[j]).id@ != id@,
        decreases v.len() - i,
    {
        if v[i].id == *id {
            proof {
                lemma_playlist_index(v@, id@, i as int);
            }
            return Some(i);
        }
        i = i + 1;
    }
    None
}

/// The recently played list after playing `t`: it moves to the front with no
/// other copy of its id kept, and the list is capped at [`RECENT_CAP`].
pub open spec fn recents_after(r: Seq<Track>, t: Track) -> Seq<Track> {
    let s = seq![t] + r.filter(|x: Track| x.id@ != t.id@);
    if s.len() > RECENT_CAP { s.take(RECENT_CAP as int) } else { s }
}

/// `t` with credits copied from `s` when it is a copy of the same track
/// saved without any: credits and the joined artist text are taken, and the
/// album and album id only where `t` lacks them.
pub open spec fn backfilled(t: TrackData, s: TrackData) -> TrackData {
    if t.id@ == s.id@ && t.artists.len() == 0 {
        TrackData {
            artists: s.artists,
            artist: s.artist,
            album_id: if t.album_id is None { s.album_id } else { t.album_id },
            album: if t.album is None { s.album } else { t.album },
            ..t
        }
    } else {
        t
    }
}

/// Some track of `ts` would receive credits from `s`.
pub open spec fn any_backfill(ts: Seq<TrackData>, s: TrackData) -> bool {
    exists|i: int| 0 <= i < ts.len() && (#[trigger] ts[i]).id@ == s.id@ && ts[i].artists.len() == 0
}

/// Move the elements of `v` out, keeping those whose id differs from `id`.
fn without_id(v: Vec<Track>, id: &String) -> (r: Vec<Track>)
    ensures
        r@ == v@.filter(|x: Track| x.id@ != id@),
{
    let ghost all = v@;
    let ghost pred = |x: Track| x.id@ != id@;
    let mut out: Vec<Track> = Vec::new();
    for t in it: v
        invariant
            it.seq() == all,
            pred == (|x: Track| x.id@ != id@),
            out@ == all.take(it.index()).filter(pred),
    {
        let ghost idx = it.index();
        let ghost tv = t;
        proof {
            assert(all.take(idx + 1).drop_last() =~= all.take(idx));
            assert(all.take(idx + 1).last() == tv);
        }
        let keep = t.id != *id;
        if keep {
            out.push(t);
        }
        proof {
            reveal_with_fuel(Seq::<_>::filter, 1);
            assert(out@ == all.take(idx + 1).filter(pred));
        }
    }
    proof {
        assert(all.take(all.len() as int) =~= all);
    }
    out
}

/// Copy credits from `src` onto every creditless copy of it in `v`; returns
/// whether any track changed.
fn backfill_list(v: &mut Vec<Track>, src: &Track) -> (r: bool)
    ensures
        tracks_data(final(v)@) == tracks_data(old(v)@).map_values(|d: TrackData| backfilled(d, src@)),
        r == any_backfill(tracks_data(old(v)@), src@),
{
    let mut items: Vec<Track> = Vec::new();
    std::mem::swap(v, &mut items);
    let ghost all = items@;
    let mut changed = false;
    for t in it: items
        invariant
            it.seq() == all,
            v@.len() == it.index(),
            tracks_data(v@) == tracks_data(all.take(it.index())).map_values(|d: TrackData| backfilled(d, src@)),
            changed == any_backfill(tracks_data(all.take(it.index())), src@),
    {
        let ghost idx = it.index();
        let ghost tv = t;
        let mut t = t;
        if t.id == src.id && t.artists.len() == 0 {
            t.artists = crate::model::clone_artists(&src.artists);
            t.artist = src.artist.clone();
            if t.album_id.is_none() {
                t.album_id = src.album_id.clone();
            }
            if t.album.is_none() {
                t.album = src.album.clone();
            }
            changed = true;
        }
        proof {
            assert(t@ == backfilled(tv@, src@));
        }
        let ghost t_pushed = t;
        let ghost before = v@;
        v.push(t);
        proof {
            let pre = all.take(idx);
            let post = all.take(idx + 1);
            assert(post =~= pre.push(tv));
            assert(tracks_data(post) =~= tracks_data(pre).push(tv@));
            assert forall|i: int| 0 <= i < post.len() implies tracks_data(v@)[i] == tracks_data(post).map_values(
                |d: TrackData| backfilled(d, src@),
            )[i] by {
                assert(v@ == before.push(t_pushed));
                if i < idx {
                    assert(tracks_data(pre).map_values(|d: TrackData| backfilled(d, src@))[i] == tracks_data(before)[i]);
                    assert(v@[i] == before[i]);
                    assert(tracks_data(pre)[i] == tracks_data(post)[i]);
                } else {
                    assert(v@[i] == t_pushed);
                }
            }
            assert(tracks_data(v@) =~= tracks_data(post).map_values(|d: TrackData| backfilled(d, src@)));
            if any_backfill(tracks_data(post), src@) && !any_backfill(tracks_data(pre), src@) {
                let i = choose|i: int| 0 <= i < tracks_data(post).len() && (#[trigger] tracks_data(post)[i]).id@ == src@.id@
                    && tracks_data(post)[i].artists.len() == 0;
                assert(i == idx);
            }
            if any_backfill(tracks_data(pre), src@) {
                let i = choose|i: int| 0 <= i < tracks_data(pre).len() && (#[trigger] tracks_data(pre)[i]).id@ == src@.id@
                    && tracks_data(pre)[i].artists.len() == 0;
                assert(tracks_data(post)[i] == tracks_data(pre)[i]);
            }
            if tv.id@ == src.id@ && tv.artists@.len() == 0 {
                assert(tracks_data(post)[idx] == tv@);
            }
        }
    }
    proof {
        assert(all.take(all.len() as int) =~= all);
    }
    changed
}

impl LibraryStore {
    /// Like `track`, or unlike it if a track with its id is liked. New likes
    /// go to the front.
    pub fn toggle_like(&mut self, track: Track)
        ensures
            final(self).data.liked@ == match first_index(old(self).data.liked@, track.id@) {
                Some(k) => old(self).data.liked@.remove(k),
                None => seq![track] + old(self).data.liked@,
            },
            final(self).data.playlists == old(self).data.playlists,
            final(self).data.recently_played == old(self).data.recently_played,
    {
        match position_of_id(&self.data.liked, &track.id) {
            Some(k) => {
                proof {
                    lemma_first_index(self.data.liked@, track.id@, k as int);
                }
                self.data.liked.remove(k);
            },
            None => {
                self.data.liked.insert(0, track);
                assert(self.data.liked@ =~= seq![track] + old(self).data.liked@);
            },
        }
    }

    /// Record `track` as just played: it moves to the front of the recently
    /// played list, replacing any earlier entry with its id, and the list is
    /// capped at [`RECENT_CAP`].
    pub fn push_recent(&mut self, track: Track)
        ensures
            final(self).data.recently_played@ == recents_after(old(self).data.recently_played@, track),
            final(self).data.liked == old(self).data.liked,
            final(self).data.playlists == old(self).data.playlists,
    {
        let mut items: Vec<Track> = Vec::new();
        std::mem::swap(&mut self.data.recently_played, &mut items);
        let mut kept = without_id(items, &track.id);
        kept.insert(0, track);
        kept.truncate(RECENT_CAP);
        self.data.recently_played = kept;
        assert(seq![track] + old(self).data.recently_played@.filter(|x: Track| x.id@ != track.id@) =~= old(
            self,
        ).data.recently_played@.filter(|x: Track| x.id@ != track.id@).insert(0, track));
    }

    /// Copy freshly resolved artist credits from `src` onto every stored copy
    /// of that track saved without them (liked, playlists, recents). Returns
    /// whether anything changed; nothing does when `src` has no credits.
    pub fn backfill_track(&mut self, src: &Track) -> (r: bool)
        ensures
            src.artists@.len() == 0 ==> !r && *final(self) == *old(self),
            src.artists@.len() > 0 ==> {
                &&& tracks_data(final(self).data.liked@) == tracks_data(old(self).data.liked@).map_values(
                    |d: TrackData| backfilled(d, src@),
                )
                &&& tracks_data(final(self).data.recently_played@) == tracks_data(
                    old(self).data.recently_played@,
                ).map_values(|d: TrackData| backfilled(d, src@))
                &&& final(self).data.playlists@.len() == old(self).data.playlists@.len()
                &&& forall|i: int| 0 <= i < old(self).data.playlists@.len() ==> {
                    let p = old(self).data.playlists@[i];
                    let q = #[trigger] final(self).data.playlists@[i];
                    &&& q.id == p.id
                    &&& q.name == p.name
                    &&& tracks_data(q.tracks@) == tracks_data(p.tracks@).map_values(|d: TrackData| backfilled(d, src@))
                }
                &&& r == (any_backfill(tracks_data(old(self).data.liked@), src@) || any_backfill(
                    tracks_data(old(self).data.recently_played@),
                    src@,
                ) || exists|i: int| 0 <= i < old(self).data.playlists@.len() && any_backfill(
                    tracks_data((#[trigger] old(self).data.playlists@[i]).tracks@),
                    src@,
                ))
            },
    {
        if src.artists.len() == 0 {
            return false;
        }
        let c1 = backfill_list(&mut self.data.liked, src);
        let mut lists: Vec<Playlist> = Vec::new();
        std::mem::swap(&mut self.data.playlists, &mut lists);
        let ghost all = lists@;
        let ghost liked_after = self.data.liked;
        let mut c2 = false;
        for p in it: lists
            invariant
                it.seq() == all,
                self.data.liked == liked_after,
                self.data.recently_played == old(self).data.recently_played,
                self.data.playlists@.len() == it.index(),
                forall|i: int| 0 <= i < it.index() ==> {
                    let p = all[i];
                    let q = #[trigger] self.data.playlists@[i];
                    &&& q.id == p.id
                    &&& q.name == p.name
                    &&& tracks_data(q.tracks@) == tracks_data(p.tracks@).map_values(|d: TrackData| backfilled(d, src@))
                },
                c2 == exists|i: int| 0 <= i < it.index() && any_backfill(tracks_data((#[trigger] all[i]).tracks@), src@),
        {
            let ghost idx = it.index();
            let mut p = p;
            let c = backfill_list(&mut p.tracks, src);
            c2 = c2 || c;
            self.data.playlists.push(p);
            proof {
                if c {
                    assert(any_backfill(tracks_data(all[idx].tracks@), src@));
                }
            }
        }
        let c3 = backfill_list(&mut self.data.recently_played, src);
        proof {
            assert(all.take(all.len() as int) =~= all);
            assert(self.data.playlists@.len() == all.len());
        }
        c1 || c2 || c3
    }

    /// Add a playlist named `name` holding `tracks`, with the id `pl-` followed
    /// by `draw` in 16 hex digits. Returns a copy of it.
    pub fn create_playlist_with_id(&mut self, name: String, tracks: Vec<Track>, draw: u64) -> (r: Playlist)
        ensures
            r.id@ == "pl-"@ + hex16_digits(draw as nat),
            r.name == name,
            r@.tracks == tracks_data(tracks@),
            final(self).data.playlists@.len() == old(self).data.playlists@.len() + 1,
            final(self).data.playlists@.take(old(self).data.playlists@.len() as int) == old(self).data.playlists@,
            final(self).data.playlists@.last()@ == r@,
            final(self).data.liked == old(self).data.liked,
            final(self).data.recently_played == old(self).data.recently_played,
    {
        let mut id = String::from_str("pl-");
        let hex = hex16(draw);
        id.append(hex.as_str());
        let playlist = Playlist { id, name, tracks };
        let copy = playlist.clone();
        self.data.playlists.push(playlist);
        assert(self.data.playlists@.take(old(self).data.playlists@.len() as int) =~= old(self).data.playlists@);
        copy
    }

    /// Add an empty playlist named `name` with a fresh random id.
    pub fn create_playlist(&mut self, name: String) -> (r: Playlist)
        ensures
            exists|draw: u64| r.id@ == "pl-"@ + #[trigger] hex16_digits(draw as nat),
            r.name == name,
            r@.tracks.len() == 0,
            final(self).data.playlists@.len() == old(self).data.playlists@.len() + 1,
            final(self).data.playlists@.take(old(self).data.playlists@.len() as int) == old(self).data.playlists@,
            final(self).data.playlists@.last()@ == r@,
            final(self).data.liked == old(self).data.liked,
            final(self).data.recently_played == old(self).data.recently_played,
    {
        let draw = random_u64();
        self.create_playlist_with_id(name, Vec::new(), draw)
    }

    /// Add a playlist named `name` holding `tracks` with a fresh random id
    /// (imports always create a new playlist, never overwrite).
    pub fn create_playlist_with(&mut self, name: String, tracks: Vec<Track>) -> (r: Playlist)
        ensures
            exists|draw: u64| r.id@ == "pl-"@ + #[trigger] hex16_digits(draw as nat),
            r.name == name,
            r@.tracks == tracks_data(tracks@),
            final(self).data.playlists@.len() == old(self).data.playlists@.len() + 1,
            final(self).data.playlists@.take(old(self).data.playlists@.len() as int) == old(self).data.playlists@,
            final(self).data.playlists@.last()@ == r@,
            final(self).data.liked == old(self).data.liked,
            final(self).data.recently_played == old(self).data.recently_played,
    {
        let draw = random_u64();
        self.create_playlist_with_id(name, tracks, draw)
    }

    /// Delete every playlist with id `id`.
    pub fn delete_playlist(&mut self, id: &str)
        ensures
            final(self).data.playlists@ == old(self).data.playlists@.filter(|p: Playlist| p.id@ != id@),
            final(self).data.liked == old(self).data.liked,
            final(self).data.recently_played == old(self).data.recently_played,
    {
        let key = id.to_owned();
        let mut lists: Vec<Playlist> = Vec::new();
        std::mem::swap(&mut self.data.playlists, &mut lists);
        let ghost all = lists@;
        let ghost pred = |p: Playlist| p.id@ != id@;
        for p in it: lists
            invariant
                it.seq() == all,
                key@ == id@,
                pred == (|p: Playlist| p.id@ != id@),
                self.data.playlists@ == all.take(it.index()).filter(pred),
                self.data.liked == old(self).data.liked,
                self.data.recently_played == old(self).data.recently_played,
        {
            let ghost idx = it.index();
            let ghost pv = p;
            proof {
                assert(all.take(idx + 1).drop_last() =~= all.take(idx));
                assert(all.take(idx + 1).last() == pv);
            }
            if p.id != key {
                self.data.playlists.push(p);
            }
            proof {
                reveal_with_fuel(Seq::<_>::filter, 1);
                assert(self.data.playlists@ == all.take(idx + 1).filter(pred));
            }
        }
        proof {
            assert(all.take(all.len() as int) =~= all);
        }
    }

    /// Rename the first playlist with id `id`; returns false, changing
    /// nothing, when there is none.
    pub fn rename_playlist(&mut self, id: &str, name: String) -> (r: bool)
        ensures
            r == playlist_index(old(self).data.playlists@, id@) is Some,
            !r ==> *final(self) == *old(self),
            r ==> {
                let k = playlist_index(old(self).data.playlists@, id@)->0;
                let p = old(self).data.playlists@[k];
                final(self).data.playlists@ == old(self).data.playlists@.update(k, Playlist { name, ..p })
            },
            final(self).data.liked == old(self).data.liked,
            final(self).data.recently_played == old(self).data.recently_played,
    {
        let key = id.to_owned();
        match find_playlist(&self.data.playlists, &key) {
            Some(k) => {
                let mut p = self.data.playlists.remove(k);
                p.name = name;
                self.data.playlists.insert(k, p);
                assert(self.data.playlists@ =~= old(self).data.playlists@.update(k as int, p));
                true
            },
            None => false,
        }
    }

    /// Add `track` to the first playlist with id `id` unless a track with its
    /// id is already there. Returns whether the playlist changed.
    pub fn add_to_playlist(&mut self, id: &str, track: Track) -> (r: bool)
        ensures
            ({
                let ps = old(self).data.playlists@;
                match playlist_index(ps, id@) {
                    Some(k) => if has_id(ps[k].tracks@, track.id@) {
                        !r && *final(self) == *old(self)
                    } else {
                        &&& r
                        &&& final(self).data.playlists@.len() == ps.len()
                        &&& forall|j: int| 0 <= j < ps.len() && j != k ==> #[trigger] final(self).data.playlists@[j] == ps[j]
                        &&& final(self).data.playlists@[k].id == ps[k].id
                        &&& final(self).data.playlists@[k].name == ps[k].name
                        &&& final(self).data.playlists@[k].tracks@ == ps[k].tracks@.push(track)
                    },
                    None => !r && *final(self) == *old(self),
                }
            }),
            final(self).data.liked == old(self).data.liked,
            final(self).data.recently_played == old(self).data.recently_played,
    {
        let key = id.to_owned();
        match find_playlist(&self.data.playlists, &key) {
            Some(k) => {
                if queue_has_id(&self.data.playlists[k].tracks, &track.id) {
                    return false;
                }
                let mut p = self.data.playlists.remove(k);
                p.tracks.push(track);
                self.data.playlists.insert(k, p);
                true
            },
            None => false,
        }
    }

    /// Remove every track with id `track_id` from the first playlist with id
    /// `id`. Returns false, changing nothing, when there is no such playlist.
    pub fn remove_from_playlist(&mut self, id: &str, track_id: &str) -> (r: bool)
        ensures
            ({
                let ps = old(self).data.playlists@;
                match playlist_index(ps, id@) {
                    Some(k) => {
                        &&& r
                        &&& final(self).data.playlists@.len() == ps.len()
                        &&& forall|j: int| 0 <= j < ps.len() && j != k ==> #[trigger] final(self).data.playlists@[j] == ps[j]
                        &&& final(self).data.playlists@[k].id == ps[k].id
                        &&& final(self).data.playlists@[k].name == ps[k].name
                        &&& final(self).data.playlists@[k].tracks@ == ps[k].tracks@.filter(
                            |t: Track| t.id@ != track_id@,
                        )
                    },
                    None => !r && *final(self) == *old(self),
                }
            }),
            final(self).data.liked == old(self).data.liked,
            final(self).data.recently_played == old(self).data.recently_played,
    {
        let key = id.to_owned();
        let tkey = track_id.to_owned();
        match find_playlist(&self.data.playlists, &key) {
            Some(k) => {
                let mut p = self.data.playlists.remove(k);
                let mut tracks: Vec<Track> = Vec::new();
                std::mem::swap(&mut p.tracks, &mut tracks);
                p.tracks = without_id(tracks, &tkey);
                self.data.playlists.insert(k, p);
                true
            },
            None => false,
        }
    }

    /// Move the first playlist with id `id` to position `to` in the list.
    /// Returns false, changing nothing, when there is no such playlist, `to`
    /// is past the end, or it is already there.
    pub fn move_playlist(&mut self, id: &str, to: usize) -> (r: bool)
        ensures
            ({
                let ps = old(self).data.playlists@;
                match playlist_index(ps, id@) {
                    Some(k) => if to >= ps.len() || to == k {
                        !r && *final(self) == *old(self)
                    } else {
                        r && final(self).data.playlists@ == ps.remove(k).insert(to as int, ps[k])
                    },
                    None => !r && *final(self) == *old(self),
                }
            }),
            final(self).data.liked == old(self).data.liked,
            final(self).data.recently_played == old(self).data.recently_played,
    {
        let key = id.to_owned();
        match find_playlist(&self.data.playlists, &key) {
            Some(k) => {
                if to >= self.data.playlists.len() || to == k {
                    return false;
                }
                let p = self.data.playlists.remove(k);
                self.data.playlists.insert(to, p);
                true
            },
            None => false,
        }
    }
}

/// Liking a track that is not liked and then toggling it again restores the
/// liked list.
pub proof fn lemma_like_toggle_round_trip(liked: Seq<Track>, t: Track)
    requires
        !has_id(liked, t.id@),
    ensures
        first_index(seq![t] + liked, t.id@) == Some(0int),
        (seq![t] + liked).remove(0) == liked,
{
    lemma_first_index(seq![t] + liked, t.id@, 0);
    assert((seq![t] + liked).remove(0) =~= liked);
}

/// The recently played list puts the played track first, keeps each id at
/// most once (if it did before) and never exceeds [`RECENT_CAP`] entries.
pub proof fn lemma_recents_shape(r: Seq<Track>, t: Track)
    requires
        forall|i: int, j: int| 0 <= i < r.len() && 0 <= j < r.len() && i != j ==> (#[trigger] r[i]).id@ != (#[trigger] r[j]).id@,
    ensures
        recents_after(r, t)[0] == t,
        recents_after(r, t).len() <= RECENT_CAP,
        forall|i: int, j: int| 0 <= i < recents_after(r, t).len() && 0 <= j < recents_after(r, t).len() && i != j
            ==> (#[trigger] recents_after(r, t)[i]).id@ != (#[trigger] recents_after(r, t)[j]).id@,
{
    let pred = |x: Track| x.id@ != t.id@;
    let f = r.filter(pred);
    let s = seq![t] + f;
    assert forall|i: int, j: int| 0 <= i < s.len() && 0 <= j < s.len() && i != j implies (#[trigger] s[i]).id@ != (
    #[trigger] s[j]).id@ by {
        if i == 0 {
            r.lemma_filter_pred(pred, j - 1);
        } else if j == 0 {
            r.lemma_filter_pred(pred, i - 1);
        } else {
            assert(s[i] == f[i - 1] && s[j] == f[j - 1]);
            assert(f.contains(f[i - 1]));
            assert(f.contains(f[j - 1]));
            lemma_filter_distinct(r, pred, i - 1, j - 1);
        }
    }
    let out = recents_after(r, t);
    if s.len() > RECENT_CAP {
        assert forall|i: int, j: int| 0 <= i < out.len() && 0 <= j < out.len() && i != j implies (#[trigger] out[i]).id@
            != (#[trigger] out[j]).id@ by {
            assert(out[i] == s[i] && out[j] == s[j]);
        }
    }
}

/// Filtering a sequence with distinct ids keeps them distinct.
proof fn lemma_filter_distinct(r: Seq<Track>, pred: spec_fn(Track) -> bool, a: int, b: int)
    requires
        forall|i: int, j: int| 0 <= i < r.len() && 0 <= j < r.len() && i != j ==> (#[trigger] r[i]).id@ != (#[trigger] r[j]).id@,
        0 <= a < r.filter(pred).len(),
        0 <= b < r.filter(pred).len(),
        a != b,
    ensures
        r.filter(pred)[a].id@ != r.filter(pred)[b].id@,
    decreases r.len(),
{
    reveal_with_fuel(Seq::<_>::filter, 1);
    let d = r.drop_last();
    let fd = d.filter(pred);
    assert forall|i: int, j: int| 0 <= i < d.len() && 0 <= j < d.len() && i != j implies (#[trigger] d[i]).id@ != (
    #[trigger] d[j]).id@ by {
        assert(d[i] == r[i] && d[j] == r[j]);
    }
    if pred(r.last()) {
        let f = fd.push(r.last());
        if a < fd.len() && b < fd.len() {
            lemma_filter_distinct(d, pred, a, b);
        } else {
            let other = if a < fd.len() { a } else { b };
            assert(fd.contains(fd[other]));
            d.lemma_filter_contains_rev(pred, fd[other]);
            let k = choose|k: int| 0 <= k < d.len() && d[k] == fd[other];
            assert(r[k] == d[k]);
            assert(r[k].id@ != r[r.len() - 1].id@);
        }
    } else {
        lemma_filter_distinct(d, pred, a, b);
    }
}

/// Adding a track to a playlist is idempotent: once it is there, adding it
/// again changes nothing.
pub proof fn lemma_add_to_playlist_idempotent(tracks: Seq<Track>, t: Track)
    ensures
        has_id(tracks.push(t), t.id@),
{
    assert(tracks.push(t)[tracks.len() as int] == t);
}

/// Copying credits is idempotent: a track that received credits is left
/// alone by the same copy again.
pub proof fn lemma_backfill_idempotent(t: TrackData, s: TrackData)
    requires
        s.artists.len() > 0,
    ensures
        backfilled(backfilled(t, s), s) == backfilled(t, s),
{
}

} // verus!
