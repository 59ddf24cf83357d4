//! Text and layout rules of the interface: times, collection subtitles, the
//! live preview of a drag-to-reorder, and tokens that let the latest toast or
//! search win.

use vstd::prelude::*;

use crate::model::{AlbumSummary, Track};
use crate::text::{dec_digit, dec_digits, push_decimal};

verus! {

broadcast use vstd::string::group_string_axioms;

/// `n` in decimal with at least two digits.
pub open spec fn two_digits(n: nat) -> Seq<char> {
    if n < 10 {
        "0"@ + dec_digits(n)
    } else {
        dec_digits(n)
    }
}

fn push_two_digits(out: &mut String, n: u64)
    ensures
        final(out)@ == old(out)@ + two_digits(n as nat),
{
    if n < 10 {
        out.append("0");
    }
    push_decimal(out, n);
    proof {
        if n < 10 {
            assert(old(out)@ + "0"@ + dec_digits(n as nat) =~= old(out)@ + ("0"@ + dec_digits(n as nat)));
        }
    }
}

/// A track time of `total` seconds as `m:ss`, or `h:mm:ss` from an hour up.
pub open spec fn clock_text(total: nat) -> Seq<char> {
    let h = total / 3600;
    let m = (total % 3600) / 60;
    let s = total % 60;
    if h > 0 {
        dec_digits(h) + ":"@ + two_digits(m) + ":"@ + two_digits(s)
    } else {
        dec_digits(m) + ":"@ + two_digits(s)
    }
}

/// A track time as shown in lists and the player bar (see [`clock_text`]).
pub fn fmt_secs(total: u32) -> (r: String)
    ensures
        r@ == clock_text(total as nat),
{
    let h = total / 3600;
    let m = (total % 3600) / 60;
    let s = total % 60;
    let mut out = String::new();
    if h > 0 {
        push_decimal(&mut out, h as u64);
        out.append(":");
        push_two_digits(&mut out, m as u64);
    } else {
        push_decimal(&mut out, m as u64);
    }
    out.append(":");
    push_two_digits(&mut out, s as u64);
    assert(out@ =~= clock_text(total as nat));
    out
}

/// A collection's total length of `secs` seconds: `1 hr 23 min`, `23 min`,
/// or `45 sec` under a minute.
pub open spec fn total_text(secs: nat) -> Seq<char> {
    let h = secs / 3600;
    let m = (secs % 3600) / 60;
    if h > 0 {
        dec_digits(h) + " hr "@ + dec_digits(m) + " min"@
    } else if m > 0 {
        dec_digits(m) + " min"@
    } else {
        dec_digits(secs) + " sec"@
    }
}

/// Human-readable total duration for a collection subtitle.
pub fn fmt_total_duration(secs: u32) -> (r: String)
    ensures
        r@ == total_text(secs as nat),
{
    let h = secs / 3600;
    let m = (secs % 3600) / 60;
    let mut out = String::new();
    if h > 0 {
        push_decimal(&mut out, h as u64);
        out.append(" hr ");
        push_decimal(&mut out, m as u64);
        out.append(" min");
    } else if m > 0 {
        push_decimal(&mut out, m as u64);
        out.append(" min");
    } else {
        push_decimal(&mut out, secs as u64);
        out.append(" sec");
    }
    out
}

/// The summed known durations of `tracks`, in seconds.
pub open spec fn known_total(tracks: Seq<Track>) -> nat
    decreases tracks.len(),
{
    if tracks.len() == 0 {
        0
    } else {
        known_total(tracks.drop_last()) + match tracks.last().duration {
            Some(d) => d as nat,
            None => 0,
        }
    }
}

/// The summed known durations of `tracks`, in seconds, when that fits a
/// `u32`; `None` when it does not.
pub fn total_duration(tracks: &Vec<Track>) -> (r: Option<u32>)
    ensures
        match r {
            Some(t) => t == known_total(tracks@),
            None => known_total(tracks@) > u32::MAX,
        },
{
    let mut total: u32 = 0;
    let mut i: usize = 0;
    while i < tracks.len()
        invariant
            i <= tracks@.len(),
            total == known_total(tracks@.take(i as int)),
        decreases tracks.len() - i,
    {
        proof {
            assert(tracks@.take(i + 1).drop_last() =~= tracks@.take(i as int));
            assert(tracks@.take(i + 1).last() == tracks@[i as int]);
        }
        let d = match tracks[i].duration {
            Some(d) => d,
            None => 0,
        };
        if d > u32::MAX - total {
            proof {
                lemma_known_total_grows(tracks@, i as int + 1);
            }
            return None;
        }
        total = total + d;
        i = i + 1;
    }
    proof {
        assert(tracks@.take(tracks@.len() as int) =~= tracks@);
    }
    Some(total)
}

proof fn lemma_known_total_grows(s: Seq<Track>, n: int)
    requires
        0 <= n <= s.len(),
    ensures
        known_total(s.take(n)) <= known_total(s),
    decreases s.len() - n,
{
    if n < s.len() {
        lemma_known_total_grows(s, n + 1);
        assert(s.take(n + 1).drop_last() =~= s.take(n));
    } else {
        assert(s.take(n) =~= s);
    }
}

/// The subtitle of a collection of `n` songs lasting `total` seconds.
pub open spec fn collection_meta_text(n: nat, total: nat) -> Seq<char> {
    dec_digits(n) + " song"@ + (if n == 1 {
        ""@
    } else {
        "s"@
    }) + " \u{2022} "@ + total_text(total)
}

/// Subtitle line for a collection: song count and total known duration.
/// The total must fit a `u32` (see [`total_duration`]).
pub fn collection_meta(tracks: &Vec<Track>) -> (r: String)
    requires
        known_total(tracks@) <= u32::MAX,
    ensures
        r@ == collection_meta_text(tracks@.len(), known_total(tracks@)),
{
    let total = match total_duration(tracks) {
        Some(t) => t,
        None => 0,
    };
    let n = tracks.len();
    let mut out = String::new();
    push_decimal(&mut out, n as u64);
    out.append(" song");
    if n != 1 {
        out.append("s");
    } else {
        out.append("");
    }
    out.append(" \u{2022} ");
    let t = fmt_total_duration(total);
    out.append(t.as_str());
    out
}

/// An album's subtitle: its kind, with the year when known.
pub fn album_subtitle(a: &AlbumSummary) -> (r: String)
    ensures
        r@ == match a.year {
            Some(y) => a.album_type@ + " \u{2022} "@ + dec_digits(y as nat),
            None => a.album_type@,
        },
{
    match a.year {
        Some(y) => {
            let mut s = a.album_type.clone();
            s.append(" \u{2022} ");
            push_decimal(&mut s, y as u64);
            s
        },
        None => a.album_type.clone(),
    }
}

/// Where row `i` lands when the row at `from` is dropped at `over`.
pub open spec fn moved_position(from: int, over: int, i: int) -> int {
    if i == from {
        over
    } else if from < over && from < i <= over {
        i - 1
    } else if over < from && over <= i < from {
        i + 1
    } else {
        i
    }
}

/// How many slots row `i` slides in the live preview while row `from` is
/// dragged over row `over`: the dragged row spans the whole distance, the
/// rows in between step one slot toward the vacated one, others stay.
pub fn drag_shift_slots(from: usize, over: usize, i: usize) -> (r: Option<i64>)
    requires
        from <= i64::MAX,
        over <= i64::MAX,
    ensures
        from == over ==> r is None,
        from != over ==> match r {
            Some(k) => k != 0 && i + k == moved_position(from as int, over as int, i as int),
            None => moved_position(from as int, over as int, i as int) == i,
        },
{
    if from == over {
        return None;
    }
    if i == from {
        Some(over as i64 - from as i64)
    } else if from < over && i > from && i <= over {
        Some(-1)
    } else if from > over && i >= over && i < from {
        Some(1)
    } else {
        None
    }
}

/// The preview shows the post-drop order: no two rows land in the same
/// slot, and every row lands in a slot of the list.
pub proof fn lemma_drag_preview_is_a_permutation(from: int, over: int, len: int, i: int, j: int)
    requires
        0 <= from < len,
        0 <= over < len,
        0 <= i < len,
        0 <= j < len,
        i != j,
    ensures
        0 <= moved_position(from, over, i) < len,
        moved_position(from, over, i) != moved_position(from, over, j),
{
}

/// The preview shows exactly the order the drop commits: the row at `i`
/// sits, after moving the row at `from` to `over`, at the slot the preview
/// slides it to.
pub proof fn lemma_drag_preview_matches_move<A>(q: Seq<A>, from: int, over: int, i: int)
    requires
        0 <= from < q.len(),
        0 <= over < q.len(),
        0 <= i < q.len(),
    ensures
        q.remove(from).insert(over, q[from])[moved_position(from, over, i)] == q[i],
{
}

/// The inline style sliding row `i` for the live reorder preview, with
/// `margin` pixels between rows; none when the row stays.
pub open spec fn shift_style_text(slots: int, margin: int) -> Seq<char> {
    "transform: translateY(calc("@ + signed_digits(slots * 100) + "% + "@ + signed_digits(slots * margin)
        + "px));"@
}

/// `n` in decimal with a leading `-` when negative.
pub open spec fn signed_digits(n: int) -> Seq<char> {
    if n < 0 {
        "-"@ + dec_digits((-n) as nat)
    } else {
        dec_digits(n as nat)
    }
}

fn push_signed(out: &mut String, n: i64)
    ensures
        final(out)@ == old(out)@ + signed_digits(n as int),
{
    if n < 0 {
        out.append("-");
        let m: u64 = if n == i64::MIN {
            0x8000_0000_0000_0000
        } else {
            (-n) as u64
        };
        push_decimal(out, m);
        proof {
            assert(old(out)@ + "-"@ + dec_digits((-n) as nat) =~= old(out)@ + ("-"@ + dec_digits((-n) as nat)));
        }
    } else {
        push_decimal(out, n as u64);
    }
}

proof fn lemma_dec_digit_value(d: nat)
    requires
        d < 10,
    ensures
        dec_digit(d) as u32 == 48 + d,
{
    let s = seq!['0', '1', '2', '3', '4', '5', '6', '7', '8', '9'];
    assert(s[0] == '0' && s[1] == '1' && s[2] == '2' && s[3] == '3' && s[4] == '4');
    assert(s[5] == '5' && s[6] == '6' && s[7] == '7' && s[8] == '8' && s[9] == '9');
}

proof fn lemma_dec_digits_shape(n: nat)
    ensures
        dec_digits(n).len() >= 1,
        n >= 10 ==> dec_digits(n).len() >= 2,
        forall|k: int| 0 <= k < dec_digits(n).len() ==> 48 <= (#[trigger] dec_digits(n)[k]) as u32 <= 57,
    decreases n,
{
    if n >= 10 {
        lemma_dec_digits_shape(n / 10);
        lemma_dec_digit_value(n % 10);
        let d = dec_digits(n);
        assert forall|k: int| 0 <= k < d.len() implies 48 <= (#[trigger] d[k]) as u32 <= 57 by {
            if k < d.len() - 1 {
                assert(d[k] == dec_digits(n / 10)[k]);
            }
        }
    } else {
        lemma_dec_digit_value(n);
    }
}

proof fn lemma_dec_digits_injective(a: nat, b: nat)
    requires
        dec_digits(a) == dec_digits(b),
    ensures
        a == b,
    decreases a,
{
    lemma_dec_digits_shape(a);
    lemma_dec_digits_shape(b);
    let da = dec_digits(a);
    if a < 10 && b < 10 {
        assert(da[0] == dec_digit(a));
        assert(dec_digits(b)[0] == dec_digit(b));
        lemma_dec_digit_value(a);
        lemma_dec_digit_value(b);
    } else if a >= 10 && b >= 10 {
        lemma_dec_digit_value(a % 10);
        lemma_dec_digit_value(b % 10);
        assert(da.last() == dec_digit(a % 10));
        assert(dec_digits(b).last() == dec_digit(b % 10));
        assert(da.drop_last() =~= dec_digits(a / 10));
        assert(dec_digits(b).drop_last() =~= dec_digits(b / 10));
        lemma_dec_digits_injective(a / 10, b / 10);
    }
}

proof fn lemma_signed_digits_shape(n: int)
    ensures
        signed_digits(n).len() >= 1,
        forall|k: int| 0 <= k < signed_digits(n).len() ==> #[trigger] signed_digits(n)[k] != '%',
        (signed_digits(n)[0] == '-') == (n < 0),
{
    reveal_strlit("-");
    if n < 0 {
        lemma_dec_digits_shape((-n) as nat);
        let d = dec_digits((-n) as nat);
        assert forall|k: int| 0 <= k < signed_digits(n).len() implies #[trigger] signed_digits(n)[k] != '%' by {
            if k > 0 {
                assert(signed_digits(n)[k] == d[k - 1]);
            }
        }
    } else {
        lemma_dec_digits_shape(n as nat);
        let d = dec_digits(n as nat);
        assert(48 <= d[0] as u32);
        assert forall|k: int| 0 <= k < d.len() implies #[trigger] d[k] != '%' by {
            assert(48 <= d[k] as u32);
        }
    }
}

proof fn lemma_signed_digits_injective(a: int, b: int)
    requires
        signed_digits(a) == signed_digits(b),
    ensures
        a == b,
{
    lemma_signed_digits_shape(a);
    lemma_signed_digits_shape(b);
    reveal_strlit("-");
    if a < 0 && b < 0 {
        assert(signed_digits(a).skip(1) =~= dec_digits((-a) as nat));
        assert(signed_digits(b).skip(1) =~= dec_digits((-b) as nat));
        lemma_dec_digits_injective((-a) as nat, (-b) as nat);
    } else if a >= 0 && b >= 0 {
        lemma_dec_digits_injective(a as nat, b as nat);
    }
}

/// Two texts that agree on `p`, then hold a part free of `%` followed by a
/// `%`, agree on that part.
proof fn lemma_part_before_percent(p: Seq<char>, a: Seq<char>, x: Seq<char>, b: Seq<char>, y: Seq<char>)
    requires
        p + a + x == p + b + y,
        x.len() > 0 && x[0] == '%',
        y.len() > 0 && y[0] == '%',
        forall|k: int| 0 <= k < a.len() ==> #[trigger] a[k] != '%',
        forall|k: int| 0 <= k < b.len() ==> #[trigger] b[k] != '%',
    ensures
        a == b,
{
    let l = p + a + x;
    let r = p + b + y;
    let pl: int = p.len() as int;
    let al: int = a.len() as int;
    let bl: int = b.len() as int;
    if al < bl {
        assert(l[pl + al] == x[0]);
        assert(r[pl + al] == b[al]);
    } else if bl < al {
        assert(r[pl + bl] == y[0]);
        assert(l[pl + bl] == a[bl]);
    }
    assert(a =~= l.subrange(pl, pl + al));
    assert(b =~= r.subrange(pl, pl + bl));
}

/// The preview's style reads back: the text written into a row's style
/// determines by how many slots the row slides.
pub proof fn lemma_shift_style_reads_back(k1: int, k2: int, margin: int)
    requires
        shift_style_text(k1, margin) == shift_style_text(k2, margin),
    ensures
        k1 == k2,
{
    let p = "transform: translateY(calc("@;
    let q = "% + "@;
    let t = "px));"@;
    reveal_strlit("% + ");
    let a = signed_digits(k1 * 100);
    let b = signed_digits(k2 * 100);
    let x = q + signed_digits(k1 * margin) + t;
    let y = q + signed_digits(k2 * margin) + t;
    assert(shift_style_text(k1, margin) =~= p + a + x);
    assert(shift_style_text(k2, margin) =~= p + b + y);
    lemma_signed_digits_shape(k1 * 100);
    lemma_signed_digits_shape(k2 * 100);
    lemma_part_before_percent(p, a, x, b, y);
    lemma_signed_digits_injective(k1 * 100, k2 * 100);
}

/// A row whose preview style reads `k` slots ends up, once the drop of the
/// row at `from` onto `over` commits, exactly `k` slots from where it was.
pub proof fn lemma_drag_style_shows_drop<A>(q: Seq<A>, from: int, over: int, i: int, k: int, margin: int)
    requires
        0 <= from < q.len(),
        0 <= over < q.len(),
        0 <= i < q.len(),
        shift_style_text(shift_of(from, over, i), margin) == shift_style_text(k, margin),
    ensures
        0 <= i + k < q.len(),
        q.remove(from).insert(over, q[from])[i + k] == q[i],
{
    lemma_shift_style_reads_back(shift_of(from, over, i), k, margin);
}

/// Slots row `i` moves in the preview of dragging `from` over `over`.
pub open spec fn shift_of(from: int, over: int, i: int) -> int {
    moved_position(from, over, i) - i
}

/// Inline transform sliding row `i` for the live reorder preview while row
/// `from` is dragged over row `over`, or none when it stays put.
pub fn drag_shift_style(from: Option<usize>, over: Option<usize>, i: usize, margin: i64) -> (r: Option<String>)
    requires
        match (from, over) {
            (Some(f), Some(o)) => f != o ==> f <= i64::MAX && o <= i64::MAX && i64::MIN <= shift_of(
                f as int,
                o as int,
                i as int,
            ) * 100 <= i64::MAX && i64::MIN <= shift_of(f as int, o as int, i as int) * margin <= i64::MAX,
            _ => true,
        },
    ensures
        match (from, over) {
            (Some(f), Some(o)) => if f == o {
                r is None
            } else {
                match r {
                    Some(s) => s@ == shift_style_text(shift_of(f as int, o as int, i as int), margin as int)
                        && shift_of(f as int, o as int, i as int) != 0,
                    None => shift_of(f as int, o as int, i as int) == 0,
                }
            },
            _ => r is None,
        },
{
    let (f, o) = match (from, over) {
        (Some(f), Some(o)) => (f, o),
        _ => return None,
    };
    if f == o {
        return None;
    }
    match drag_shift_slots(f, o, i) {
        Some(k) => {
            let mut s = String::new();
            s.append("transform: translateY(calc(");
            push_signed(&mut s, k * 100);
            s.append("% + ");
            push_signed(&mut s, k * margin);
            s.append("px));");
            Some(s)
        },
        None => None,
    }
}

/// A counter handing out tokens so that the latest of overlapping requests
/// wins: each toast (or search) takes a new token, and a timer (or response)
/// acts only if its token is still the latest one.
pub struct Supersede {
    pub generation: u64,
}

impl Supersede {
    /// No token handed out yet.
    pub fn new() -> (r: Self)
        ensures
            r.generation == 0,
    {
        Supersede { generation: 0 }
    }

    /// Hand out the next token.
    pub fn issue(&mut self) -> (r: u64)
        requires
            old(self).generation < u64::MAX,
        ensures
            final(self).generation == old(self).generation + 1,
            r == final(self).generation,
    {
        self.generation = self.generation + 1;
        self.generation
    }

    /// Whether `token` is still the latest token.
    pub fn is_current(&self, token: u64) -> (r: bool)
        ensures
            r == (self.generation == token),
    {
        self.generation == token
    }
}

/// A later toast or search always supersedes an earlier one: after a new
/// token is issued, no token handed out before it is current.
pub proof fn lemma_issue_retires_older_tokens(s: Supersede, older: u64)
    requires
        older <= s.generation < u64::MAX,
    ensures
        (Supersede { generation: (s.generation + 1) as u64 }).generation != older,
{
}

} // verus!
