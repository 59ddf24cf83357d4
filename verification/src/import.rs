//! Rules for importing and exporting playlists: pulling a playlist ID out of
//! a pasted link, what an import yields and reports, and turning a playlist
//! name into a safe file name.

use vstd::prelude::*;

use crate::catalog::{audio_items, audio_tracks, converts_to, TrackItem};
use crate::model::Track;
use crate::text::{
    chars_of, contains_seq, dec_digits, find, find_seq, is_whitespace, is_ws, lead_ws, lemma_blank_trims_to_empty, lemma_trimmed_edges,
    lemma_trimmed_unchanged, lemma_trimmed_within, occurs_at,
    occurs_in, push_decimal, string_from, trim, trim_bounds, trimmed,
};

verus! {

broadcast use vstd::string::group_string_axioms;

/// Number of characters before the first '&' or '#' in `s`.
pub open spec fn stop(s: Seq<char>) -> nat
    decreases s.len(),
{
    if s.len() == 0 || s[0] == '&' || s[0] == '#' {
        0
    } else {
        1 + stop(s.drop_first())
    }
}

proof fn lemma_stop(s: Seq<char>, k: int)
    requires
        0 <= k <= s.len(),
        forall|j: int| 0 <= j < k ==> (#[trigger] s[j]) != '&' && s[j] != '#',
        k == s.len() || s[k] == '&' || s[k] == '#',
    ensures
        stop(s) == k,
    decreases k,
{
    if k > 0 {
        let t = s.drop_first();
        assert forall|j: int| 0 <= j < k - 1 implies (#[trigger] t[j]) != '&' && t[j] != '#' by {
            assert(t[j] == s[j + 1]);
        }
        if k - 1 < t.len() {
            assert(t[k - 1] == s[k]);
        }
        lemma_stop(t, k - 1);
    }
}

/// The text between the first and the second occurrence of `list=` in `t`
/// (or to the end), if `t` contains `list=` at all.
pub open spec fn list_segment(t: Seq<char>) -> Option<Seq<char>> {
    match find(t, "list="@) {
        Some(i) => {
            let after = t.skip(i + 5);
            Some(
                match find(after, "list="@) {
                    Some(j) => after.take(j),
                    None => after,
                },
            )
        },
        None => None,
    }
}

/// The playlist ID in a pasted link or bare ID: the `list=` query value (up
/// to the next `&` or `#`) when there is a non-empty one; otherwise the whole
/// trimmed input if it looks like a bare ID (no `://`, no whitespace).
pub open spec fn playlist_id_of(input: Seq<char>) -> Option<Seq<char>> {
    let t = trimmed(input);
    if t.len() == 0 {
        None
    } else {
        let from_list = match list_segment(t) {
            Some(seg) => seg.take(stop(seg) as int),
            None => seq![],
        };
        if from_list.len() > 0 {
            Some(from_list)
        } else if !occurs_in(t, "://"@) && !(exists|k: int| 0 <= k < t.len() && is_ws(#[trigger] t[k])) {
            Some(t)
        } else {
            None
        }
    }
}

/// A copy of `v[a..b]`.
fn slice_of(v: &Vec<char>, a: usize, b: usize) -> (r: Vec<char>)
    requires
        a <= b <= v@.len(),
    ensures
        r@ == v@.subrange(a as int, b as int),
{
    let mut out: Vec<char> = Vec::new();
    let mut i = a;
    while i < b
        invariant
            a <= i <= b <= v@.len(),
            out@ == v@.subrange(a as int, i as int),
        decreases b - i,
    {
        out.push(v[i]);
        proof {
            assert(v@.subrange(a as int, i + 1) =~= v@.subrange(a as int, i as int).push(v@[i as int]));
        }
        i = i + 1;
    }
    out
}

/// The text of `t` between its first and second `list=` (or to the end).
fn segment_of(t: &Vec<char>) -> (r: Option<Vec<char>>)
    ensures
        match list_segment(t@) {
            Some(seg) => r is Some && r->0@ == seg,
            None => r is None,
        },
{
    proof {
        reveal_strlit("list=");
    }
    let pat = chars_of("list=");
    assert(pat@.len() == 5);
    match find_seq(t, &pat) {
        Some(i) => {
            assert(occurs_at(t@, pat@, i as int));
            let n = t.len();
            assert(i + 5 <= n);
            let start: usize = i + 5;
            let after = slice_of(t, start, n);
            assert(after@ =~= t@.skip(i + 5));
            match find_seq(&after, &pat) {
                Some(j) => {
                    let seg = slice_of(&after, 0, j);
                    assert(seg@ =~= after@.take(j as int));
                    Some(seg)
                },
                None => Some(after),
            }
        },
        None => None,
    }
}

/// The prefix of `seg` before its first `&` or `#`.
fn up_to_stop(seg: &Vec<char>) -> (r: Vec<char>)
    ensures
        r@ == seg@.take(stop(seg@) as int),
{
    let mut k: usize = 0;
    while k < seg.len() && seg[k] != '&' && seg[k] != '#'
        invariant
            k <= seg@.len(),
            forall|j: int| 0 <= j < k ==> (#[trigger] seg@[j]) != '&' && seg@[j] != '#',
        decreases seg.len() - k,
    {
        k = k + 1;
    }
    proof {
        lemma_stop(seg@, k as int);
        assert(seg@.take(k as int) =~= seg@.subrange(0, k as int));
    }
    slice_of(seg, 0, k)
}

/// The `list=` value of `t`: the segment after the first `list=`, up to the
/// next `&` or `#` (empty when there is no `list=`).
fn list_value(t: &Vec<char>) -> (r: Vec<char>)
    ensures
        r@ == match list_segment(t@) {
            Some(seg) => seg.take(stop(seg) as int),
            None => seq![],
        },
{
    match segment_of(t) {
        Some(seg) => up_to_stop(&seg),
        None => Vec::new(),
    }
}

/// `t` contains no `://` and no whitespace.
fn looks_bare(t: &Vec<char>) -> (r: bool)
    ensures
        r == (!occurs_in(t@, "://"@) && !(exists|k: int| 0 <= k < t@.len() && is_ws(#[trigger] t@[k]))),
{
    proof {
        reveal_strlit("://");
    }
    let scheme = chars_of("://");
    if contains_seq(&t, &scheme) {
        return false;
    }
    let mut j: usize = 0;
    while j < t.len()
        invariant
            j <= t@.len(),
            forall|q: int| 0 <= q < j ==> !is_ws(#[trigger] t@[q]),
        decreases t.len() - j,
    {
        if is_whitespace(t[j]) {
            return false;
        }
        j = j + 1;
    }
    true
}

/// Extract a YouTube / YouTube Music playlist ID from a pasted URL, or
/// accept a bare ID. Returns `None` if nothing usable is found.
pub fn parse_playlist_id(input: &str) -> (r: Option<String>)
    ensures
        match playlist_id_of(input@) {
            Some(id) => r is Some && r->0@ == id,
            None => r is None,
        },
{
    let v = chars_of(input);
    let (a, b) = trim_bounds(&v);
    let t = slice_of(&v, a, b);
    if t.len() == 0 {
        return None;
    }
    let id = list_value(&t);
    if id.len() > 0 {
        return Some(string_from(&id, 0, id.len()));
    }
    if looks_bare(&t) {
        return Some(string_from(&t, 0, t.len()));
    }
    None
}

/// What std's `char::is_alphanumeric` answers for `c`: whether `c` has the
/// Unicode Alphabetic or Numeric property.
pub uninterp spec fn alphanumeric(c: char) -> bool;

/// Calls `char::is_alphanumeric`. Its answer is named [`alphanumeric`]; the
/// contract adds only what std documents for ASCII: there, exactly the
/// letters and digits are alphanumeric.
#[verifier::external_body]
fn is_alphanumeric(c: char) -> (r: bool)
    ensures
        r == alphanumeric(c),
        (c as u32) < 0x80 ==> (r <==> ascii_alnum(c)),
{
    c.is_alphanumeric()
}

/// A character kept as is in a file name: alphanumeric (for an ASCII
/// character, a letter or digit), space, `-` or `_`.
pub open spec fn file_name_safe(c: char) -> bool {
    (if (c as u32) < 0x80 {
        ascii_alnum(c)
    } else {
        alphanumeric(c)
    }) || c == ' ' || c == '-' || c == '_'
}

/// `name` with every character that is not [`file_name_safe`] dropped.
pub open spec fn cleaned_name(name: Seq<char>) -> Seq<char> {
    name.filter(|c: char| file_name_safe(c))
}

/// `c` is an ASCII letter or digit.
pub open spec fn ascii_alnum(c: char) -> bool {
    'a' <= c <= 'z' || 'A' <= c <= 'Z' || '0' <= c <= '9'
}

/// The file name for a playlist called `name`: the cleaned name without
/// surrounding whitespace, or `playlist` when nothing is left.
pub open spec fn safe_filename_of(name: Seq<char>) -> Seq<char> {
    let t = trimmed(cleaned_name(name));
    if t.len() == 0 {
        "playlist"@
    } else {
        t
    }
}

proof fn lemma_cleaned_keeps_safe(s: Seq<char>)
    requires
        forall|k: int| 0 <= k < s.len() ==> file_name_safe(#[trigger] s[k]),
    ensures
        cleaned_name(s) == s,
    decreases s.len(),
{
    reveal_with_fuel(Seq::<_>::filter, 1);
    if s.len() > 0 {
        let d = s.drop_last();
        assert forall|k: int| 0 <= k < d.len() implies file_name_safe(#[trigger] d[k]) by {
            assert(d[k] == s[k]);
        }
        lemma_cleaned_keeps_safe(d);
        assert(file_name_safe(s.last()));
        assert(d.push(s.last()) =~= s);
    }
}

proof fn lemma_playlist_is_safe()
    ensures
        forall|k: int| 0 <= k < "playlist"@.len() ==> file_name_safe(#[trigger] "playlist"@[k]),
        !is_ws("playlist"@[0]),
        !is_ws("playlist"@.last()),
{
    reveal_strlit("playlist");
}

/// A safe file name is never empty, holds only characters kept by
/// [`file_name_safe`] (so no path separator, `.` or `:`), has no surrounding
/// whitespace, is `playlist` for a name of spaces only, and is left as it is
/// when made safe again.
pub proof fn lemma_safe_filename_is_safe(name: Seq<char>)
    ensures
        safe_filename_of(name).len() > 0,
        forall|k: int|
            0 <= k < safe_filename_of(name).len() ==> file_name_safe(#[trigger] safe_filename_of(name)[k]),
        trimmed(safe_filename_of(name)) == safe_filename_of(name),
        (forall|k: int| 0 <= k < name.len() ==> #[trigger] name[k] == ' ') ==> safe_filename_of(name) == "playlist"@,
        safe_filename_of(safe_filename_of(name)) == safe_filename_of(name),
{
    let c = cleaned_name(name);
    let t = trimmed(c);
    let r = safe_filename_of(name);
    reveal_strlit("playlist");
    lemma_playlist_is_safe();
    if t.len() > 0 {
        lemma_trimmed_within(c);
        assert forall|k: int| 0 <= k < t.len() implies file_name_safe(#[trigger] t[k]) by {
            let j = lead_ws(c) + k;
            assert(t[k] == c[j]);
            name.lemma_filter_pred(|c: char| file_name_safe(c), j);
        }
        lemma_trimmed_edges(c);
    }
    assert(!is_ws(r[0]) && !is_ws(r.last()));
    lemma_trimmed_unchanged(r);
    lemma_cleaned_keeps_safe(r);
    if forall|k: int| 0 <= k < name.len() ==> #[trigger] name[k] == ' ' {
        assert forall|k: int| 0 <= k < c.len() implies is_ws(#[trigger] c[k]) by {
            assert(c.contains(c[k]));
            name.lemma_filter_contains_rev(|c: char| file_name_safe(c), c[k]);
        }
        lemma_blank_trims_to_empty(c);
    }
}

/// Make a string safe to use as a file name: keep letters, digits, space,
/// `-` and `_`, drop everything else, trim, and fall back to `playlist` when
/// nothing is left. Keeps path separators out.
pub fn safe_filename(name: &str) -> (r: String)
    ensures
        r@ == safe_filename_of(name@),
        r@.len() > 0,
        forall|k: int| 0 <= k < r@.len() ==> file_name_safe(#[trigger] r@[k]),
        trimmed(r@) == r@,
        safe_filename_of(r@) == r@,
        forall|k: int|
            0 <= k < name@.len() && (name@[k] as u32) < 0x80 ==> (alphanumeric(#[trigger] name@[k]) <==> ascii_alnum(
                name@[k],
            )),
{
    let v = chars_of(name);
    let ghost keep_pred = |c: char| file_name_safe(c);
    let mut cleaned: Vec<char> = Vec::new();
    let mut i: usize = 0;
    while i < v.len()
        invariant
            i <= v@.len(),
            v@ == name@,
            keep_pred == (|c: char| file_name_safe(c)),
            cleaned@ == v@.take(i as int).filter(keep_pred),
            forall|k: int|
                0 <= k < i && (v@[k] as u32) < 0x80 ==> (alphanumeric(#[trigger] v@[k]) <==> ascii_alnum(v@[k])),
        decreases v.len() - i,
    {
        let c = v[i];
        let keep = is_alphanumeric(c) || c == ' ' || c == '-' || c == '_';
        if keep {
            cleaned.push(c);
        }
        proof {
            assert(v@.take(i + 1).drop_last() =~= v@.take(i as int));
            assert(v@.take(i + 1).last() == c);
            reveal_with_fuel(Seq::<_>::filter, 1);
            assert(keep == file_name_safe(c));
        }
        i = i + 1;
    }
    proof {
        assert(v@.take(v@.len() as int) =~= v@);
    }
    let (a, b) = trim_bounds(&cleaned);
    proof {
        lemma_safe_filename_is_safe(name@);
    }
    if a == b {
        proof {
            reveal_strlit("playlist");
        }
        return "playlist".to_string();
    }
    string_from(&cleaned, a, b)
}

/// The playlist ID to import from a pasted link or ID, or the message shown
/// when there is none.
pub fn import_target(url: &str) -> (r: Result<String, String>)
    ensures
        match playlist_id_of(url@) {
            Some(id) => r is Ok && r->Ok_0@ == id,
            None => r is Err && r->Err_0@ == "Couldn't find a playlist ID in that link."@,
        },
{
    match parse_playlist_id(url) {
        Some(id) => Ok(id),
        None => Err("Couldn't find a playlist ID in that link.".to_string()),
    }
}

/// The name an imported playlist gets: its own, unless that is blank.
pub open spec fn imported_name(name: Seq<char>) -> Seq<char> {
    if trimmed(name).len() == 0 {
        "Imported playlist"@
    } else {
        name
    }
}

/// What importing a YouTube Music playlist named `name` with entries `items`
/// yields: its audio tracks, converted, under [`imported_name`]; or an error
/// when none of its entries is an audio track.
pub fn import_tracks(name: String, items: Vec<TrackItem>) -> (r: Result<(String, Vec<Track>), String>)
    ensures
        audio_items(items@).len() == 0 <==> r is Err,
        r matches Err(e) ==> e@ == "That playlist has no playable songs."@,
        r matches Ok((n, ts)) ==> n@ == imported_name(name@) && ts@.len() == audio_items(items@).len() && forall|k: int|
            0 <= k < ts@.len() ==> converts_to(audio_items(items@)[k], #[trigger] ts@[k]),
{
    let tracks = audio_tracks(items);
    if tracks.len() == 0 {
        return Err("That playlist has no playable songs.".to_string());
    }
    let t = trim(name.as_str());
    if t.as_str().unicode_len() == 0 {
        Ok(("Imported playlist".to_string(), tracks))
    } else {
        Ok((name, tracks))
    }
}

/// The name a new playlist is created with: the input without surrounding
/// whitespace, which must not be empty.
pub fn new_playlist_name(name: &str) -> (r: Result<String, String>)
    ensures
        trimmed(name@).len() == 0 <==> r is Err,
        r matches Ok(n) ==> n@ == trimmed(name@),
        r matches Err(e) ==> e@ == "playlist name cannot be empty"@,
{
    let t = trim(name);
    if t.as_str().unicode_len() == 0 {
        Err("playlist name cannot be empty".to_string())
    } else {
        Ok(t)
    }
}

/// "song" or "songs", for `n` of them.
pub open spec fn song_noun(n: nat) -> Seq<char> {
    if n == 1 {
        "song"@
    } else {
        "songs"@
    }
}

/// The notice after importing a playlist file as `name` with `count` songs.
pub open spec fn import_notice_text(name: Seq<char>, count: nat) -> Seq<char> {
    "Imported \u{201c}"@ + name + "\u{201d} ("@ + dec_digits(count) + " "@ + song_noun(count) + ")"@
}

/// The notice shown after importing a playlist file (see
/// [`import_notice_text`]).
pub fn import_notice(name: &str, count: usize) -> (r: String)
    ensures
        r@ == import_notice_text(name@, count as nat),
{
    let mut s = String::new();
    s.append("Imported \u{201c}");
    s.append(name);
    s.append("\u{201d} (");
    push_decimal(&mut s, count as u64);
    if count == 1 {
        s.append(" song)");
    } else {
        s.append(" songs)");
    }
    proof {
        if count == 1 {
            assert(" song)"@ =~= " "@ + "song"@ + ")"@) by {
                reveal_strlit(" song)");
                reveal_strlit(" ");
                reveal_strlit("song");
                reveal_strlit(")");
            }
        } else {
            assert(" songs)"@ =~= " "@ + "songs"@ + ")"@) by {
                reveal_strlit(" songs)");
                reveal_strlit(" ");
                reveal_strlit("songs");
                reveal_strlit(")");
            }
        }
    }
    assert(s@ =~= import_notice_text(name@, count as nat));
    s
}

/// The file name a playlist is exported under: its safe name plus `.json`.
pub fn export_file_name(name: &str) -> (r: String)
    ensures
        r@ == safe_filename_of(name@) + ".json"@,
{
    let mut s = safe_filename(name);
    s.append(".json");
    s
}

} // verus!
