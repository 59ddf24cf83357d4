//! Offline download tracking: which tracks are downloaded, which are being
//! downloaded, and which were given up on. Audio files live as `<id>.m4a` in
//! the downloads directory; the shell owns the directory and the files, and
//! the on-disk presence of a file is what marks a track downloaded at load.

use vstd::prelude::*;

use crate::ids::{copy_ids, distinct_ids, holds_id, id_set, insert_id, remove_id};
use crate::model::{DownloadState, Track};
use crate::text::{chars_of, string_from};

verus! {

/// The three id sets the download tracker holds.
pub struct DownloadsView {
    pub downloaded: Set<Seq<char>>,
    pub downloading: Set<Seq<char>>,
    pub failed: Set<Seq<char>>,
}

/// `v` after claiming `id`: any failed mark is cleared and it is in flight.
pub open spec fn begun(v: DownloadsView, id: Seq<char>) -> DownloadsView {
    DownloadsView { downloaded: v.downloaded, downloading: v.downloading.insert(id), failed: v.failed.remove(id) }
}

/// `v` after `id` finished: downloaded, no longer in flight or failed.
pub open spec fn finished(v: DownloadsView, id: Seq<char>) -> DownloadsView {
    DownloadsView {
        downloaded: v.downloaded.insert(id),
        downloading: v.downloading.remove(id),
        failed: v.failed.remove(id),
    }
}

/// `v` after releasing `id`'s claim following a failed pass.
pub open spec fn released(v: DownloadsView, id: Seq<char>) -> DownloadsView {
    DownloadsView { downloaded: v.downloaded, downloading: v.downloading.remove(id), failed: v.failed }
}

/// `v` after giving up on `id`: released and marked failed.
pub open spec fn given_up(v: DownloadsView, id: Seq<char>) -> DownloadsView {
    DownloadsView { downloaded: v.downloaded, downloading: v.downloading.remove(id), failed: v.failed.insert(id) }
}

/// `v` after `id`'s offline copy was deleted.
pub open spec fn forgotten(v: DownloadsView, id: Seq<char>) -> DownloadsView {
    DownloadsView { downloaded: v.downloaded.remove(id), downloading: v.downloading, failed: v.failed.remove(id) }
}

/// The tracker after claiming each of `ts` in order (tracks already
/// downloaded are skipped, the others begun), and the tracks newly claimed.
pub open spec fn claimed(v: DownloadsView, ts: Seq<Track>) -> (DownloadsView, Seq<Track>)
    decreases ts.len(),
{
    if ts.len() == 0 {
        (v, seq![])
    } else {
        let (v1, out) = claimed(v, ts.drop_last());
        let id = ts.last().id@;
        if v1.downloaded.contains(id) {
            (v1, out)
        } else if v1.downloading.contains(id) {
            (begun(v1, id), out)
        } else {
            (begun(v1, id), out.push(ts.last()))
        }
    }
}

/// The download tracker.
pub struct Downloads {
    downloaded: Vec<String>,
    downloading: Vec<String>,
    /// Session-scoped hint: tracks whose download was abandoned after
    /// repeated failures; cleared when re-attempted, finished or removed.
    failed: Vec<String>,
}

impl View for Downloads {
    type V = DownloadsView;

    closed spec fn view(&self) -> DownloadsView {
        DownloadsView {
            downloaded: id_set(self.downloaded@),
            downloading: id_set(self.downloading@),
            failed: id_set(self.failed@),
        }
    }
}

/// The file name of `id`'s offline copy.
pub open spec fn offline_name(id: Seq<char>) -> Seq<char> {
    id + ".m4a"@
}

/// The file name `<id>.m4a` under which `id` is stored offline.
pub fn offline_file_name(id: &str) -> (r: String)
    ensures
        r@ == offline_name(id@),
{
    let mut s = id.to_owned();
    proof {
        reveal_strlit(".m4a");
    }
    s.append(".m4a");
    s
}

impl Downloads {
    /// Each id is held at most once per set.
    pub closed spec fn wf(&self) -> bool {
        &&& distinct_ids(self.downloaded@)
        &&& distinct_ids(self.downloading@)
        &&& distinct_ids(self.failed@)
    }

    /// A tracker with nothing downloaded.
    pub fn new() -> (r: Self)
        ensures
            r.wf(),
            r@.downloaded == Set::<Seq<char>>::empty(),
            r@.downloading == Set::<Seq<char>>::empty(),
            r@.failed == Set::<Seq<char>>::empty(),
    {
        let r = Downloads { downloaded: Vec::new(), downloading: Vec::new(), failed: Vec::new() };
        assert(id_set(r.downloaded@) =~= Set::<Seq<char>>::empty());
        r
    }

    /// A tracker whose downloaded set is `ids` (from the files found on disk).
    pub fn with_downloaded(ids: Vec<String>) -> (r: Self)
        ensures
            r.wf(),
            r@.downloaded == id_set(ids@),
            r@.downloading == Set::<Seq<char>>::empty(),
            r@.failed == Set::<Seq<char>>::empty(),
    {
        let mut r = Downloads::new();
        let mut i: usize = 0;
        while i < ids.len()
            invariant
                i <= ids.len(),
                r.wf(),
                r@.downloaded == id_set(ids@.take(i as int)),
                r@.downloading == Set::<Seq<char>>::empty(),
                r@.failed == Set::<Seq<char>>::empty(),
            decreases ids.len() - i,
        {
            let ghost before = r.downloaded@;
            let key = ids[i].clone();
            insert_id(&mut r.downloaded, key);
            proof {
                assert(id_set(ids@.take(i + 1)) =~= id_set(ids@.take(i as int)).insert(ids@[i as int]@)) by {
                    assert forall|s: Seq<char>| id_set(ids@.take(i + 1)).contains(s) implies id_set(ids@.take(i as int)).insert(ids@[i as int]@).contains(s) by {
                        let k = choose|k: int| 0 <= k < i + 1 && (#[trigger] ids@.take(i + 1)[k])@ == s;
                        if k < i {
                            assert(ids@.take(i as int)[k] == ids@.take(i + 1)[k]);
                        }
                    }
                    assert forall|s: Seq<char>| id_set(ids@.take(i as int)).insert(ids@[i as int]@).contains(s) implies id_set(ids@.take(i + 1)).contains(s) by {
                        if s == ids@[i as int]@ {
                            assert(ids@.take(i + 1)[i as int] == ids@[i as int]);
                        } else {
                            let k = choose|k: int| 0 <= k < i && (#[trigger] ids@.take(i as int)[k])@ == s;
                            assert(ids@.take(i as int)[k] == ids@.take(i + 1)[k]);
                        }
                    }
                }
            }
            i = i + 1;
        }
        proof {
            assert(ids@.take(ids@.len() as int) =~= ids@);
        }
        r
    }

    /// Whether `id` is available offline.
    pub fn is_downloaded(&self, id: &str) -> (r: bool)
        ensures
            r == self@.downloaded.contains(id@),
    {
        let key = id.to_owned();
        holds_id(&self.downloaded, &key)
    }

    /// Whether `id` is being downloaded.
    pub fn is_downloading(&self, id: &str) -> (r: bool)
        ensures
            r == self@.downloading.contains(id@),
    {
        let key = id.to_owned();
        holds_id(&self.downloading, &key)
    }

    /// Claim a download. Returns true if it was newly started, false if one
    /// was already in flight: this check-and-set is what keeps a track from
    /// being fetched twice at once. Starting (or restarting) a download clears
    /// any prior failed mark.
    pub fn begin(&mut self, id: &str) -> (r: bool)
        requires
            old(self).wf(),
        ensures
            final(self).wf(),
            final(self)@ == begun(old(self)@, id@),
            r == !old(self)@.downloading.contains(id@),
    {
        let key = id.to_owned();
        remove_id(&mut self.failed, &key);
        insert_id(&mut self.downloading, key)
    }

    /// Mark `id` downloaded, releasing its claim and any failed mark.
    pub fn finish(&mut self, id: &str)
        requires
            old(self).wf(),
        ensures
            final(self).wf(),
            final(self)@ == finished(old(self)@, id@),
    {
        let key = id.to_owned();
        remove_id(&mut self.downloading, &key);
        remove_id(&mut self.failed, &key);
        insert_id(&mut self.downloaded, key);
    }

    /// Release an in-flight claim after a failed pass, without marking the
    /// track as permanently failed (a retry may still be scheduled).
    pub fn fail(&mut self, id: &str)
        requires
            old(self).wf(),
        ensures
            final(self).wf(),
            final(self)@ == released(old(self)@, id@),
    {
        let key = id.to_owned();
        remove_id(&mut self.downloading, &key);
    }

    /// Give up on a track after repeated failures: drop any in-flight claim
    /// and record it as failed so a manual retry can be offered.
    pub fn mark_failed(&mut self, id: &str)
        requires
            old(self).wf(),
        ensures
            final(self).wf(),
            final(self)@ == given_up(old(self)@, id@),
    {
        let key = id.to_owned();
        remove_id(&mut self.downloading, &key);
        insert_id(&mut self.failed, key);
    }

    /// Forget `id`'s offline copy (its file is being deleted): no longer
    /// downloaded, and any failed mark is cleared.
    pub fn remove(&mut self, id: &str)
        requires
            old(self).wf(),
        ensures
            final(self).wf(),
            final(self)@ == forgotten(old(self)@, id@),
    {
        let key = id.to_owned();
        remove_id(&mut self.downloaded, &key);
        remove_id(&mut self.failed, &key);
    }

    /// Claim every track of `tracks` that is neither downloaded nor already
    /// in flight, in order; returns the claimed tracks (the ones to fetch).
    pub fn claim_pending(&mut self, tracks: Vec<Track>) -> (r: Vec<Track>)
        requires
            old(self).wf(),
        ensures
            final(self).wf(),
            final(self)@ == claimed(old(self)@, tracks@).0,
            r@ == claimed(old(self)@, tracks@).1,
    {
        let mut out: Vec<Track> = Vec::new();
        let mut rest = tracks;
        let ghost all = rest@;
        let ghost start = self@;
        let mut i: usize = 0;
        let n = rest.len();
        while i < n
            invariant
                n == all.len(),
                i <= n,
                rest@ == all.skip(i as int),
                self.wf(),
                self@ == claimed(start, all.take(i as int)).0,
                out@ == claimed(start, all.take(i as int)).1,
            decreases n - i,
        {
            let t = rest.remove(0);
            proof {
                assert(t == all[i as int]);
                assert(rest@ =~= all.skip(i + 1));
                assert(all.take(i + 1).drop_last() =~= all.take(i as int));
                assert(all.take(i + 1).last() == t);
            }
            if !self.is_downloaded(t.id.as_str()) && self.begin(t.id.as_str()) {
                out.push(t);
            }
            i = i + 1;
        }
        proof {
            assert(all.take(n as int) =~= all);
        }
        out
    }

    /// The status record listing each id once per set.
    pub fn state(&self) -> (r: DownloadState)
        requires
            self.wf(),
        ensures
            id_set(r.downloaded@) == self@.downloaded,
            id_set(r.downloading@) == self@.downloading,
            id_set(r.failed@) == self@.failed,
            distinct_ids(r.downloaded@),
            distinct_ids(r.downloading@),
            distinct_ids(r.failed@),
    {
        DownloadState {
            downloaded: copy_ids(&self.downloaded),
            downloading: copy_ids(&self.downloading),
            failed: copy_ids(&self.failed),
        }
    }
}

/// What a file found in the downloads directory is.
#[derive(Debug, PartialEq, Eq)]
pub enum EntryKind {
    /// An offline copy of the track with this id.
    Offline(String),
    /// A temp file left by a crash mid-download; never valid, delete it.
    Partial,
    /// Anything else; ignore it.
    Other,
}

/// Index of the last '.' in `s`, if any.
pub open spec fn last_dot(s: Seq<char>) -> Option<int>
    decreases s.len(),
{
    if s.len() == 0 {
        None
    } else if s.last() == '.' {
        Some(s.len() - 1)
    } else {
        last_dot(s.drop_last())
    }
}

/// The extension of file name `s` as std's `Path::extension` splits it: the
/// text after the last '.', provided something precedes that dot (and the
/// name is not "..").
pub open spec fn extension_of(s: Seq<char>) -> Option<Seq<char>> {
    if s == ".."@ {
        None
    } else {
        match last_dot(s) {
            Some(k) => if k > 0 { Some(s.skip(k + 1)) } else { None },
            None => None,
        }
    }
}

/// Classify a directory entry by its file name: `<id>.m4a` is an offline
/// copy of `id`, `*.part` a leftover partial download, anything else is
/// ignored.
pub fn classify_entry(name: &str) -> (r: EntryKind)
    ensures
        ({
            let s = name@;
            match extension_of(s) {
                Some(e) => if e == "m4a"@ {
                    r matches EntryKind::Offline(id) && id@ == s.take(last_dot(s)->0)
                } else if e == "part"@ {
                    r == EntryKind::Partial
                } else {
                    r == EntryKind::Other
                },
                None => r == EntryKind::Other,
            }
        }),
{
    proof {
        reveal_strlit("m4a");
        reveal_strlit("part");
        reveal_strlit("..");
    }
    let v = chars_of(name);
    let n = v.len();
    if n == 2 && v[0] == '.' && v[1] == '.' {
        assert(name@ =~= ".."@);
        return EntryKind::Other;
    }
    assert(name@ != ".."@) by {
        if name@ == ".."@ {
            assert(name@.len() == 2 && name@[0] == '.' && name@[1] == '.');
        }
    }
    // find the last dot
    let mut i: usize = n;
    assert(v@.take(n as int) =~= v@);
    while i > 0
        invariant
            i <= n == v@.len(),
            v@ == name@,
            last_dot(v@) == last_dot(v@.take(i as int)),
        ensures
            i <= n,
            last_dot(v@) == last_dot(v@.take(i as int)),
            i == 0 || v@[i - 1] == '.',
        decreases i,
    {
        if v[i - 1] == '.' {
            break;
        }
        proof {
            assert(v@.take(i as int).drop_last() =~= v@.take(i - 1));
        }
        i = i - 1;
    }
    if i <= 1 {
        proof {
            if i == 0 {
                assert(v@.take(0) =~= Seq::<char>::empty());
                assert(last_dot(v@) is None);
            } else {
                assert(v@.take(1).last() == '.');
                assert(last_dot(v@) == Some(0int));
            }
            assert(extension_of(name@) is None);
        }
        return EntryKind::Other;
    }
    let k = i - 1;
    proof {
        assert(v@.take(i as int).last() == '.');
        assert(last_dot(v@) == Some(k as int));
    }
    let ext = string_from(&v, k + 1, n);
    assert(ext@ == name@.skip(k + 1)) by {
        assert(v@.subrange(k + 1, n as int) =~= name@.skip(k + 1));
    }
    if n - k == 4 && v[k + 1] == 'm' && v[k + 2] == '4' && v[k + 3] == 'a' {
        assert(ext@ =~= "m4a"@);
        let stem = string_from(&v, 0, k);
        assert(stem@ =~= name@.take(k as int));
        return EntryKind::Offline(stem);
    }
    if n - k == 5 && v[k + 1] == 'p' && v[k + 2] == 'a' && v[k + 3] == 'r' && v[k + 4] == 't' {
        assert(ext@ =~= "part"@);
        return EntryKind::Partial;
    }
    proof {
        if ext@ == "m4a"@ {
            assert(ext@.len() == 3 && ext@[0] == 'm' && ext@[1] == '4' && ext@[2] == 'a');
        }
        if ext@ == "part"@ {
            assert(ext@.len() == 4 && ext@[0] == 'p' && ext@[1] == 'a' && ext@[2] == 'r' && ext@[3] == 't');
        }
    }
    EntryKind::Other
}

/// A claim is exclusive: once `begin` has claimed an id, claiming it again
/// fails until the claim is released by `finish`, `fail` or `mark_failed`,
/// after which it can be claimed again.
pub proof fn lemma_claim_is_exclusive(v: DownloadsView, id: Seq<char>)
    ensures
        begun(v, id).downloading.contains(id),
        released(begun(v, id), id).downloading.contains(id) == false,
        finished(begun(v, id), id).downloading.contains(id) == false,
        given_up(begun(v, id), id).downloading.contains(id) == false,
{
}

/// Finishing moves a track from in flight to downloaded and clears a failed
/// mark; a failed mark is also cleared by a retry (`begin`) and by removing
/// the offline copy, while releasing a claim never marks anything
/// downloaded.
pub proof fn lemma_download_lifecycle(v: DownloadsView, id: Seq<char>)
    ensures
        finished(v, id).downloaded.contains(id),
        !finished(v, id).downloading.contains(id),
        !finished(v, id).failed.contains(id),
        given_up(v, id).failed.contains(id),
        !begun(given_up(v, id), id).failed.contains(id),
        !forgotten(given_up(v, id), id).failed.contains(id),
        !forgotten(v, id).downloaded.contains(id),
        released(v, id).downloaded == v.downloaded,
{
}

proof fn lemma_claimed_grows(v: DownloadsView, ts: Seq<Track>)
    ensures
        v.downloaded.subset_of(claimed(v, ts).0.downloaded),
        v.downloading.subset_of(claimed(v, ts).0.downloading),
        forall|k: int|
            0 <= k < ts.len() ==> claimed(v, ts).0.downloaded.contains((#[trigger] ts[k]).id@)
                || claimed(v, ts).0.downloading.contains(ts[k].id@),
    decreases ts.len(),
{
    if ts.len() > 0 {
        lemma_claimed_grows(v, ts.drop_last());
        let v1 = claimed(v, ts.drop_last()).0;
        assert forall|k: int| 0 <= k < ts.len() implies claimed(v, ts).0.downloaded.contains(
            (#[trigger] ts[k]).id@,
        ) || claimed(v, ts).0.downloading.contains(ts[k].id@) by {
            if k < ts.len() - 1 {
                assert(ts.drop_last()[k] == ts[k]);
            }
        }
    }
}

proof fn lemma_claimed_nothing_new(w: DownloadsView, ts: Seq<Track>)
    requires
        forall|k: int| 0 <= k < ts.len() ==> w.downloaded.contains((#[trigger] ts[k]).id@) || w.downloading.contains(ts[k].id@),
    ensures
        claimed(w, ts).1.len() == 0,
        w.downloaded.subset_of(claimed(w, ts).0.downloaded),
        w.downloading.subset_of(claimed(w, ts).0.downloading),
    decreases ts.len(),
{
    if ts.len() > 0 {
        let init = ts.drop_last();
        assert forall|k: int| 0 <= k < init.len() implies w.downloaded.contains((#[trigger] init[k]).id@)
            || w.downloading.contains(init[k].id@) by {
            assert(init[k] == ts[k]);
        }
        lemma_claimed_nothing_new(w, init);
        assert(w.downloaded.contains(ts[ts.len() - 1].id@) || w.downloading.contains(ts[ts.len() - 1].id@));
    }
}

/// Claiming is idempotent: right after a claim, claiming the same tracks
/// again claims none of them, so no track is fetched twice at once.
pub proof fn lemma_claim_twice_claims_nothing(v: DownloadsView, ts: Seq<Track>)
    ensures
        claimed(claimed(v, ts).0, ts).1.len() == 0,
{
    lemma_claimed_grows(v, ts);
    lemma_claimed_nothing_new(claimed(v, ts).0, ts);
}

} // verus!
