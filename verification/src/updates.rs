//! Release checks: comparing dotted version strings, and what the update
//! status reports for a release tag.

use vstd::prelude::*;

use crate::model::UpdateStatus;
use crate::text::{chars_of, matches_at, string_from};

verus! {

broadcast use vstd::string::group_string_axioms;

/// Number of leading `v` characters of `s`.
pub open spec fn lead_v(s: Seq<char>) -> nat
    decreases s.len(),
{
    if s.len() > 0 && s[0] == 'v' {
        1 + lead_v(s.drop_first())
    } else {
        0
    }
}

/// Number of characters of `s` before its first `.`.
pub open spec fn before_dot(s: Seq<char>) -> nat
    decreases s.len(),
{
    if s.len() == 0 || s[0] == '.' {
        0
    } else {
        1 + before_dot(s.drop_first())
    }
}

/// The pieces of `s` between dots, in order (one piece when there is no dot).
pub open spec fn dot_pieces(s: Seq<char>) -> Seq<Seq<char>>
    decreases s.len(),
{
    let k = before_dot(s);
    if k >= s.len() {
        seq![s]
    } else {
        seq![s.take(k as int)] + dot_pieces(s.skip(k as int + 1))
    }
}

proof fn lemma_before_dot_bound(s: Seq<char>)
    ensures
        before_dot(s) <= s.len(),
        before_dot(s) < s.len() ==> s[before_dot(s) as int] == '.',
        forall|j: int| 0 <= j < before_dot(s) ==> s[j] != '.',
    decreases s.len(),
{
    if s.len() > 0 && s[0] != '.' {
        lemma_before_dot_bound(s.drop_first());
        assert forall|j: int| 0 <= j < before_dot(s) implies s[j] != '.' by {
            if j > 0 {
                assert(s[j] == s.drop_first()[j - 1]);
            }
        }
    }
}

/// `c` is one of the ASCII digits `0`..`9`.
pub open spec fn is_digit(c: char) -> bool {
    '0' <= c && c <= '9'
}

/// Number of leading ASCII digits of `s`.
pub open spec fn lead_digits(s: Seq<char>) -> nat
    decreases s.len(),
{
    if s.len() > 0 && is_digit(s[0]) {
        1 + lead_digits(s.drop_first())
    } else {
        0
    }
}

/// The number that the digit string `d` spells, read left to right.
pub open spec fn digits_value(d: Seq<char>) -> nat
    decreases d.len(),
{
    if d.len() == 0 {
        0
    } else {
        digits_value(d.drop_last()) * 10 + ((d.last() as u32) - ('0' as u32)) as nat
    }
}

/// The number a version piece stands for: its leading digits read as a
/// `u32`; 0 when there are none or when they do not fit.
pub open spec fn piece_value(p: Seq<char>) -> nat {
    let v = digits_value(p.take(lead_digits(p) as int));
    if v <= u32::MAX {
        v
    } else {
        0
    }
}

/// The numeric parts of a version string: leading `v`s dropped, split at
/// dots, each piece read by [`piece_value`].
pub open spec fn version_parts(s: Seq<char>) -> Seq<nat> {
    dot_pieces(s.skip(lead_v(s) as int)).map_values(|p: Seq<char>| piece_value(p))
}

/// Part `i` of `p`, or 0 past its end.
pub open spec fn part_at(p: Seq<nat>, i: int) -> nat {
    if 0 <= i < p.len() {
        p[i]
    } else {
        0
    }
}

/// From part `i` on, the first part where `l` and `c` differ is larger in
/// `l` (missing parts count as 0).
pub open spec fn newer_from(l: Seq<nat>, c: Seq<nat>, i: int) -> bool
    decreases l.len() + c.len() - i,
{
    if i < 0 || (i >= l.len() && i >= c.len()) {
        false
    } else if part_at(l, i) != part_at(c, i) {
        part_at(l, i) > part_at(c, i)
    } else {
        newer_from(l, c, i + 1)
    }
}

/// Version `latest` is strictly newer than version `current`.
pub open spec fn version_newer(latest: Seq<char>, current: Seq<char>) -> bool {
    newer_from(version_parts(latest), version_parts(current), 0)
}

proof fn lemma_lead_v(s: Seq<char>, i: int)
    requires
        0 <= i <= s.len(),
        forall|j: int| 0 <= j < i ==> s[j] == 'v',
        i == s.len() || s[i] != 'v',
    ensures
        lead_v(s) == i,
    decreases i,
{
    if i > 0 {
        let t = s.drop_first();
        assert forall|j: int| 0 <= j < i - 1 implies t[j] == 'v' by {
            assert(t[j] == s[j + 1]);
        }
        if i - 1 < t.len() {
            assert(t[i - 1] == s[i]);
        }
        lemma_lead_v(t, i - 1);
    }
}

proof fn lemma_before_dot(s: Seq<char>, i: int)
    requires
        0 <= i <= s.len(),
        forall|j: int| 0 <= j < i ==> s[j] != '.',
        i == s.len() || s[i] == '.',
    ensures
        before_dot(s) == i,
    decreases i,
{
    if i > 0 {
        let t = s.drop_first();
        assert forall|j: int| 0 <= j < i - 1 implies t[j] != '.' by {
            assert(t[j] == s[j + 1]);
        }
        if i - 1 < t.len() {
            assert(t[i - 1] == s[i]);
        }
        lemma_before_dot(t, i - 1);
    }
}

proof fn lemma_lead_digits(s: Seq<char>, i: int)
    requires
        0 <= i <= s.len(),
        forall|j: int| 0 <= j < i ==> is_digit(#[trigger] s[j]),
        i == s.len() || !is_digit(s[i]),
    ensures
        lead_digits(s) == i,
    decreases i,
{
    if i > 0 {
        let t = s.drop_first();
        assert forall|j: int| 0 <= j < i - 1 implies is_digit(#[trigger] t[j]) by {
            assert(t[j] == s[j + 1]);
        }
        if i - 1 < t.len() {
            assert(t[i - 1] == s[i]);
        }
        lemma_lead_digits(t, i - 1);
    }
}

/// The value of the piece `v[from..to]` (see [`piece_value`]).
fn piece_value_of(v: &Vec<char>, from: usize, to: usize) -> (r: u32)
    requires
        from <= to <= v@.len(),
    ensures
        r == piece_value(v@.subrange(from as int, to as int)),
{
    let ghost p = v@.subrange(from as int, to as int);
    let mut k: usize = from;
    let mut acc: u64 = 0;
    let mut over = false;
    while k < to && '0' <= v[k] && v[k] <= '9'
        invariant
            from <= k <= to <= v@.len(),
            p == v@.subrange(from as int, to as int),
            forall|j: int| 0 <= j < k - from ==> is_digit(#[trigger] p[j]),
            !over ==> acc == digits_value(p.take(k - from)) && acc <= u32::MAX,
            over ==> digits_value(p.take(k - from)) > u32::MAX,
        decreases to - k,
    {
        let d = (v[k] as u32) - ('0' as u32);
        proof {
            assert(p.take(k - from + 1).drop_last() =~= p.take(k - from));
            assert(p.take(k - from + 1).last() == v@[k as int]);
        }
        if !over {
            let next = acc * 10 + d as u64;
            if next > 0xffff_ffff {
                over = true;
            } else {
                acc = next;
            }
        }
        k = k + 1;
    }
    proof {
        lemma_lead_digits(p, k - from);
    }
    if over {
        0
    } else {
        acc as u32
    }
}

/// The numeric parts of version `s` (see [`version_parts`]).
pub fn parse_version(s: &str) -> (r: Vec<u32>)
    ensures
        r@.map_values(|x: u32| x as nat) == version_parts(s@),
{
    let v = chars_of(s);
    let mut i: usize = 0;
    while i < v.len() && v[i] == 'v'
        invariant
            i <= v@.len(),
            forall|j: int| 0 <= j < i ==> v@[j] == 'v',
        decreases v.len() - i,
    {
        i = i + 1;
    }
    proof {
        lemma_lead_v(v@, i as int);
    }
    let ghost rest = v@.skip(i as int);
    let ghost target = dot_pieces(rest).map_values(|p: Seq<char>| piece_value(p));
    let mut parts: Vec<u32> = Vec::new();
    loop
        invariant
            i <= v@.len(),
            v@ == s@,
            target == version_parts(s@),
            parts@.map_values(|x: u32| x as nat) + dot_pieces(v@.skip(i as int)).map_values(
                |p: Seq<char>| piece_value(p),
            ) == target,
        decreases v@.len() - i,
    {
        let mut j = i;
        while j < v.len() && v[j] != '.'
            invariant
                i <= j <= v@.len(),
                forall|q: int| i <= q < j ==> v@[q] != '.',
            decreases v.len() - j,
        {
            j = j + 1;
        }
        let ghost suffix = v@.skip(i as int);
        proof {
            assert forall|q: int| 0 <= q < j - i implies suffix[q] != '.' by {
                assert(suffix[q] == v@[i + q]);
            }
            lemma_before_dot(suffix, j - i);
        }
        let value = piece_value_of(&v, i, j);
        proof {
            assert(v@.subrange(i as int, j as int) =~= suffix.take(j - i));
        }
        let ghost before = parts@.map_values(|x: u32| x as nat);
        parts.push(value);
        proof {
            assert(parts@.map_values(|x: u32| x as nat) =~= before.push(value as nat));
        }
        if j == v.len() {
            proof {
                assert(suffix.take(j - i) =~= suffix);
                assert(dot_pieces(suffix) == seq![suffix]);
                assert(before + dot_pieces(suffix).map_values(|p: Seq<char>| piece_value(p)) =~= before.push(
                    piece_value(suffix),
                ));
            }
            return parts;
        }
        proof {
            assert(suffix.skip(j - i + 1) =~= v@.skip(j + 1));
            let tail = dot_pieces(v@.skip(j + 1));
            assert(dot_pieces(suffix) == seq![suffix.take(j - i)] + tail);
            assert(dot_pieces(suffix).map_values(|p: Seq<char>| piece_value(p)) =~= seq![
                piece_value(suffix.take(j - i)),
            ] + tail.map_values(|p: Seq<char>| piece_value(p)));
            assert(before.push(value as nat) + tail.map_values(|p: Seq<char>| piece_value(p)) =~= before
                + dot_pieces(suffix).map_values(|p: Seq<char>| piece_value(p)));
        }
        i = j + 1;
    }
}

/// Compare two dotted version strings (e.g. "0.2.0" vs "0.1.3"): true when
/// `latest` is strictly newer. Leading `v`s are ignored, missing parts count
/// as 0, and a part's non-numeric tail (a pre-release suffix) is ignored.
pub fn is_newer(latest: &str, current: &str) -> (r: bool)
    ensures
        r == version_newer(latest@, current@),
{
    let l = parse_version(latest);
    let c = parse_version(current);
    let ghost lp = version_parts(latest@);
    let ghost cp = version_parts(current@);
    assert(l@.len() == lp.len() && c@.len() == cp.len());
    let n = if l.len() > c.len() {
        l.len()
    } else {
        c.len()
    };
    let mut i: usize = 0;
    while i < n
        invariant
            i <= n,
            n == if l@.len() > c@.len() {
                l@.len()
            } else {
                c@.len()
            },
            lp == l@.map_values(|x: u32| x as nat),
            cp == c@.map_values(|x: u32| x as nat),
            lp == version_parts(latest@),
            cp == version_parts(current@),
            newer_from(lp, cp, 0) == newer_from(lp, cp, i as int),
        decreases n - i,
    {
        let a: u32 = if i < l.len() {
            l[i]
        } else {
            0
        };
        let b: u32 = if i < c.len() {
            c[i]
        } else {
            0
        };
        assert(a == part_at(lp, i as int) && b == part_at(cp, i as int));
        if a != b {
            assert(lp.len() == l@.len() && cp.len() == c@.len());
            assert(newer_from(lp, cp, i as int) == (a > b));
            return a > b;
        }
        i = i + 1;
    }
    false
}

proof fn lemma_newer_irreflexive(p: Seq<nat>, i: int)
    ensures
        !newer_from(p, p, i),
    decreases p.len() + p.len() - i,
{
    if !(i < 0 || i >= p.len()) {
        lemma_newer_irreflexive(p, i + 1);
    }
}

proof fn lemma_newer_asymmetric(l: Seq<nat>, c: Seq<nat>, i: int)
    requires
        newer_from(l, c, i),
    ensures
        !newer_from(c, l, i),
    decreases l.len() + c.len() - i,
{
    if part_at(l, i) == part_at(c, i) {
        lemma_newer_asymmetric(l, c, i + 1);
    }
}

proof fn lemma_newer_transitive(a: Seq<nat>, b: Seq<nat>, c: Seq<nat>, i: int)
    requires
        newer_from(a, b, i),
        newer_from(b, c, i),
    ensures
        newer_from(a, c, i),
    decreases a.len() + b.len() + c.len() - i,
{
    if part_at(a, i) == part_at(b, i) && part_at(b, i) == part_at(c, i) {
        lemma_newer_transitive(a, b, c, i + 1);
    } else if part_at(a, i) == part_at(b, i) {
        lemma_newer_reaches(b, c, i);
    } else if part_at(b, i) == part_at(c, i) {
        lemma_newer_reaches(a, b, i);
    }
}

proof fn lemma_newer_reaches(l: Seq<nat>, c: Seq<nat>, i: int)
    requires
        newer_from(l, c, i),
    ensures
        0 <= i,
        i < l.len() || i < c.len(),
    decreases l.len() + c.len() - i,
{
}

/// No version is newer than itself.
pub proof fn lemma_version_not_newer_than_itself(v: Seq<char>)
    ensures
        !version_newer(v, v),
{
    lemma_newer_irreflexive(version_parts(v), 0);
}

/// Of two versions, at most one is newer than the other.
pub proof fn lemma_version_newer_asymmetric(a: Seq<char>, b: Seq<char>)
    requires
        version_newer(a, b),
    ensures
        !version_newer(b, a),
{
    lemma_newer_asymmetric(version_parts(a), version_parts(b), 0);
}

/// Newer-than chains: if `a` is newer than `b` and `b` newer than `c`, then
/// `a` is newer than `c`.
pub proof fn lemma_version_newer_transitive(a: Seq<char>, b: Seq<char>, c: Seq<char>)
    requires
        version_newer(a, b),
        version_newer(b, c),
    ensures
        version_newer(a, c),
{
    lemma_newer_transitive(version_parts(a), version_parts(b), version_parts(c), 0);
}

/// `s` without its leading `v`s.
pub fn strip_v(s: &str) -> (r: String)
    ensures
        r@ == s@.skip(lead_v(s@) as int),
{
    let v = chars_of(s);
    let mut i: usize = 0;
    while i < v.len() && v[i] == 'v'
        invariant
            i <= v@.len(),
            forall|j: int| 0 <= j < i ==> v@[j] == 'v',
        decreases v.len() - i,
    {
        i = i + 1;
    }
    proof {
        lemma_lead_v(v@, i as int);
        assert(v@.subrange(i as int, v@.len() as int) =~= v@.skip(i as int));
    }
    string_from(&v, i, v.len())
}

/// What the update check reports when the running version is `current` and
/// the latest release, if it could be fetched, has tag `tag` and page `url`:
/// the tag without leading `v`s as the latest version, and an update when
/// that version is newer than `current`.
pub fn release_status(current: String, tag: Option<String>, url: Option<String>) -> (r: UpdateStatus)
    ensures
        r.current@ == current@,
        match tag {
            Some(t) => r.latest is Some && r.latest->0@ == t@.skip(lead_v(t@) as int)
                && r.update_available == version_newer(r.latest->0@, current@),
            None => r.latest is None && !r.update_available,
        },
        r.url == url,
{
    match tag {
        Some(t) => {
            let latest = strip_v(t.as_str());
            let newer = is_newer(latest.as_str(), current.as_str());
            UpdateStatus { current, latest: Some(latest), update_available: newer, url }
        },
        None => UpdateStatus { current, latest: None, update_available: false, url },
    }
}

/// `s` begins with `prefix`.
pub open spec fn starts_with(s: Seq<char>, prefix: Seq<char>) -> bool {
    prefix.len() <= s.len() && s.take(prefix.len() as int) == prefix
}

/// Only http(s) links are handed to the system browser: `Ok` for a URL that
/// starts with `https://` or `http://`, an error otherwise.
pub fn check_open_url(url: &str) -> (r: Result<(), String>)
    ensures
        r is Ok <==> (starts_with(url@, "https://"@) || starts_with(url@, "http://"@)),
        r matches Err(e) ==> e@ == "refusing to open non-http(s) url"@,
{
    let v = chars_of(url);
    let https = chars_of("https://");
    let http = chars_of("http://");
    let a = matches_at(&v, 0, &https);
    let b = matches_at(&v, 0, &http);
    proof {
        assert(v@.subrange(0, https@.len() as int) =~= v@.take(https@.len() as int));
        assert(v@.subrange(0, http@.len() as int) =~= v@.take(http@.len() as int));
    }
    if a || b {
        Ok(())
    } else {
        Err("refusing to open non-http(s) url".to_string())
    }
}

} // verus!
