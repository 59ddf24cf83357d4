//! Stream fetching decisions: which of the two fetch routes to take, how a
//! stream is downloaded in ranged chunks, and how the yt-dlp fallback is
//! located and invoked.

use vstd::prelude::*;

use crate::model::YtDlpStatus;
use crate::random::random_u64;
use crate::text::{dec_digits, hex16, hex16_digits, push_decimal, trim, trimmed};

verus! {

broadcast use vstd::string::group_string_axioms;

/// Fetches that go through yt-dlp after a failed direct fetch before the
/// direct route is tried again.
pub const RUSTYPIPE_RETRY_AFTER: u32 = 50;

/// Smallest chunk requested at once; the CDN refuses much larger ranges.
pub const CHUNK_SIZE_MIN: u64 = 800_000;

/// Chunk sizes vary by up to this much above the minimum.
pub const CHUNK_JITTER: u64 = 200_000;

/// Direct fetch attempts per track (a refused download is retried once with
/// fresh visitor data).
pub const MAX_ATTEMPTS: usize = 2;

/// Which route fetches go: the direct route is tried when `cooldown` is 0;
/// otherwise that many more fetches use yt-dlp first.
pub struct StreamRoute {
    pub cooldown: u32,
}

/// The route state after one fetch that did not try the direct route.
pub open spec fn cooled(c: u32) -> u32 {
    if c == 0 {
        0
    } else {
        (c - 1) as u32
    }
}

/// The cooldown after `n` fetches that all skipped the direct route.
pub open spec fn cooled_by(c: u32, n: nat) -> u32
    decreases n,
{
    if n == 0 {
        c
    } else {
        cooled(cooled_by(c, (n - 1) as nat))
    }
}

impl StreamRoute {
    /// A route that tries the direct fetch first.
    pub fn new() -> (r: Self)
        ensures
            r.cooldown == 0,
    {
        StreamRoute { cooldown: 0 }
    }

    /// Decide the route of the next fetch: true to try the direct route
    /// (cooldown over), false to go through yt-dlp, counting the cooldown
    /// down toward the next re-probe.
    pub fn next_fetch(&mut self) -> (r: bool)
        ensures
            r == (old(self).cooldown == 0),
            final(self).cooldown == cooled(old(self).cooldown),
    {
        if self.cooldown == 0 {
            true
        } else {
            self.cooldown = self.cooldown - 1;
            false
        }
    }

    /// The direct route failed: use yt-dlp for the next
    /// [`RUSTYPIPE_RETRY_AFTER`] fetches.
    pub fn direct_failed(&mut self)
        ensures
            final(self).cooldown == RUSTYPIPE_RETRY_AFTER,
    {
        self.cooldown = RUSTYPIPE_RETRY_AFTER;
    }
}

proof fn lemma_cooled_by(c: u32, n: nat)
    requires
        n <= c,
    ensures
        cooled_by(c, n) == c - n,
    decreases n,
{
    if n > 0 {
        lemma_cooled_by(c, (n - 1) as nat);
    }
}

/// After a failed direct fetch, exactly [`RUSTYPIPE_RETRY_AFTER`] fetches go
/// through yt-dlp, and the one after them tries the direct route again.
pub proof fn lemma_direct_route_reprobed()
    ensures
        forall|n: nat| n < RUSTYPIPE_RETRY_AFTER ==> #[trigger] cooled_by(RUSTYPIPE_RETRY_AFTER, n) != 0,
        cooled_by(RUSTYPIPE_RETRY_AFTER, RUSTYPIPE_RETRY_AFTER as nat) == 0,
{
    assert forall|n: nat| n < RUSTYPIPE_RETRY_AFTER implies #[trigger] cooled_by(RUSTYPIPE_RETRY_AFTER, n) != 0 by {
        lemma_cooled_by(RUSTYPIPE_RETRY_AFTER, n);
    }
    lemma_cooled_by(RUSTYPIPE_RETRY_AFTER, RUSTYPIPE_RETRY_AFTER as nat);
}

/// The size of a chunk request for the random draw `draw`.
pub open spec fn chunk_for(draw: u64) -> u64 {
    (CHUNK_SIZE_MIN + draw % CHUNK_JITTER) as u64
}

/// The chunk size for the random draw `draw`: the minimum plus a jitter
/// below [`CHUNK_JITTER`].
pub fn chunk_len(draw: u64) -> (r: u64)
    ensures
        r == chunk_for(draw),
        CHUNK_SIZE_MIN <= r < CHUNK_SIZE_MIN + CHUNK_JITTER,
{
    CHUNK_SIZE_MIN + draw % CHUNK_JITTER
}

/// A fresh random chunk size, between [`CHUNK_SIZE_MIN`] and that plus
/// [`CHUNK_JITTER`].
pub fn random_chunk_len() -> (r: u64)
    ensures
        CHUNK_SIZE_MIN <= r < CHUNK_SIZE_MIN + CHUNK_JITTER,
{
    chunk_len(random_u64())
}

/// A ranged download of a stream of `size` bytes (0 when unknown).
pub struct ChunkedFetch {
    /// Bytes received so far.
    pub offset: u64,
    pub size: u64,
    /// The server signalled the end (an empty or short read).
    pub done: bool,
}

/// The last byte to request from `offset` with chunks of `chunk`: the end of
/// the chunk, but not past the last byte of a stream of known size.
pub open spec fn range_end(offset: u64, size: u64, chunk: u64) -> int {
    if size == 0 || offset + chunk - 1 <= size - 1 {
        offset + chunk - 1
    } else {
        size - 1
    }
}

impl ChunkedFetch {
    /// A download of a stream of `size` bytes (0 when unknown).
    pub fn new(size: u64) -> (r: Self)
        ensures
            r.offset == 0,
            r.size == size,
            !r.done,
    {
        ChunkedFetch { offset: 0, size, done: false }
    }

    /// The next byte range to request, `(first, last)` inclusive, with chunks
    /// of `chunk` bytes; `None` once the download is over (the server ended
    /// it, or a known size was reached).
    pub fn next_range(&self, chunk: u64) -> (r: Option<(u64, u64)>)
        requires
            chunk >= 1,
            self.offset + chunk - 1 <= u64::MAX,
        ensures
            (self.done || (self.size != 0 && self.offset >= self.size)) <==> r is None,
            r matches Some((a, b)) ==> a == self.offset && b == range_end(self.offset, self.size, chunk) && a <= b,
    {
        if self.done || (self.size != 0 && self.offset >= self.size) {
            return None;
        }
        let last = self.offset + (chunk - 1);
        let end = if self.size == 0 || last <= self.size - 1 {
            last
        } else {
            self.size - 1
        };
        Some((self.offset, end))
    }

    /// Record a response of `got` bytes to a request for `requested`: the
    /// offset moves past them; an empty or short read ends the download.
    pub fn record(&mut self, got: u64, requested: u64)
        requires
            old(self).offset + got <= u64::MAX,
        ensures
            final(self).size == old(self).size,
            final(self).offset == old(self).offset + got,
            final(self).done == (old(self).done || got == 0 || got < requested),
    {
        self.offset = self.offset + got;
        if got == 0 || got < requested {
            self.done = true;
        }
    }

    /// After the download: `total` bytes received must cover a known size,
    /// else the stream was truncated.
    pub fn outcome(&self, total: u64) -> (r: Result<(), String>)
        ensures
            r is Err <==> (self.size > 0 && total < self.size),
            r matches Err(e) ==> e@ == "incomplete stream: got "@ + dec_digits(total as nat) + " of "@
                + dec_digits(self.size as nat) + " bytes"@,
    {
        if self.size > 0 && total < self.size {
            let mut s = String::new();
            s.append("incomplete stream: got ");
            push_decimal(&mut s, total);
            s.append(" of ");
            push_decimal(&mut s, self.size);
            s.append(" bytes");
            Err(s)
        } else {
            Ok(())
        }
    }
}

/// The `Range` header value for bytes `first..=last`.
pub fn range_header(first: u64, last: u64) -> (r: String)
    ensures
        r@ == "bytes="@ + dec_digits(first as nat) + "-"@ + dec_digits(last as nat),
{
    let mut s = String::new();
    s.append("bytes=");
    push_decimal(&mut s, first);
    s.append("-");
    push_decimal(&mut s, last);
    s
}

/// An audio stream the player can be offered.
pub struct AudioStreamInfo {
    /// An m4a (AAC) stream; the decoder has no Opus support.
    pub is_m4a: bool,
    pub bitrate: u32,
}

/// `i` is the last m4a stream with the highest bitrate among m4a streams.
pub open spec fn best_m4a(s: Seq<AudioStreamInfo>, i: int) -> bool {
    &&& 0 <= i < s.len()
    &&& s[i].is_m4a
    &&& forall|j: int| 0 <= j < s.len() && (#[trigger] s[j]).is_m4a ==> s[j].bitrate <= s[i].bitrate
    &&& forall|j: int| i < j < s.len() && (#[trigger] s[j]).is_m4a ==> s[j].bitrate < s[i].bitrate
}

/// The stream to download: the best m4a one (the last of equals), or none
/// when there is no m4a stream.
pub fn pick_stream(streams: &Vec<AudioStreamInfo>) -> (r: Option<usize>)
    ensures
        r matches Some(i) ==> best_m4a(streams@, i as int),
        r is None <==> forall|j: int| 0 <= j < streams@.len() ==> !(#[trigger] streams@[j]).is_m4a,
{
    let mut best: Option<usize> = None;
    let mut k: usize = 0;
    while k < streams.len()
        invariant
            k <= streams@.len(),
            match best {
                Some(i) => i < k && streams@[i as int].is_m4a && (forall|j: int|
                    0 <= j < k && (#[trigger] streams@[j]).is_m4a ==> streams@[j].bitrate <= streams@[i as int].bitrate)
                    && (forall|j: int|
                    i < j < k && (#[trigger] streams@[j]).is_m4a ==> streams@[j].bitrate < streams@[i as int].bitrate),
                None => forall|j: int| 0 <= j < k ==> !(#[trigger] streams@[j]).is_m4a,
            },
        decreases streams.len() - k,
    {
        if streams[k].is_m4a {
            match best {
                Some(i) => {
                    if streams[k].bitrate >= streams[i].bitrate {
                        best = Some(k);
                    }
                },
                None => {
                    best = Some(k);
                },
            }
        }
        k = k + 1;
    }
    best
}

/// What to do after direct attempt `attempt` (0-based) failed.
pub open spec fn retry_direct(attempt: nat, forbidden: bool) -> bool {
    forbidden && attempt + 1 < MAX_ATTEMPTS
}

/// After a failed direct download attempt: retry (with fresh visitor data)
/// only when the CDN refused the download and attempts remain; any other
/// failure ends the direct route at once.
pub fn retry_direct_fetch(attempt: usize, forbidden: bool) -> (r: bool)
    ensures
        r == retry_direct(attempt as nat, forbidden),
{
    forbidden && attempt < MAX_ATTEMPTS - 1
}

/// The platforms a yt-dlp release asset exists for.
pub enum TargetOs {
    Windows,
    MacOs,
    Linux,
    Other,
}

/// The standalone yt-dlp release asset for a platform (no Python runtime
/// needed on Windows, macOS and Linux; the generic zipapp otherwise).
pub fn ytdlp_release_asset(os: TargetOs, aarch64: bool) -> (r: &'static str)
    ensures
        r@ == match os {
            TargetOs::Windows => "yt-dlp.exe"@,
            TargetOs::MacOs => "yt-dlp_macos"@,
            TargetOs::Linux => if aarch64 {
                "yt-dlp_linux_aarch64"@
            } else {
                "yt-dlp_linux"@
            },
            TargetOs::Other => "yt-dlp"@,
        },
{
    match os {
        TargetOs::Windows => "yt-dlp.exe",
        TargetOs::MacOs => "yt-dlp_macos",
        TargetOs::Linux => if aarch64 {
            "yt-dlp_linux_aarch64"
        } else {
            "yt-dlp_linux"
        },
        TargetOs::Other => "yt-dlp",
    }
}

/// The yt-dlp executable's file name on a platform.
pub fn ytdlp_bin(windows: bool) -> (r: &'static str)
    ensures
        r@ == if windows {
            "yt-dlp.exe"@
        } else {
            "yt-dlp"@
        },
{
    if windows {
        "yt-dlp.exe"
    } else {
        "yt-dlp"
    }
}

/// The URL the latest release asset is downloaded from.
pub fn ytdlp_download_url(asset: &str) -> (r: String)
    ensures
        r@ == "https://github.com/yt-dlp/yt-dlp/releases/latest/download/"@ + asset@,
{
    let mut s = String::new();
    s.append("https://github.com/yt-dlp/yt-dlp/releases/latest/download/");
    s.append(asset);
    s
}

/// The watch URL of a video.
pub open spec fn watch_url(video_id: Seq<char>) -> Seq<char> {
    "https://www.youtube.com/watch?v="@ + video_id
}

/// The temporary file name a yt-dlp fetch of `video_id` writes, with the
/// random draw `draw` as 16 hex digits so concurrent fetches of one ID never
/// share a file.
pub fn ytdlp_temp_name(video_id: &str, draw: u64) -> (r: String)
    ensures
        r@ == "rift-"@ + video_id@ + "-"@ + hex16_digits(draw as nat) + ".m4a"@,
{
    let mut s = String::new();
    s.append("rift-");
    s.append(video_id);
    s.append("-");
    let h = hex16(draw);
    s.append(h.as_str());
    s.append(".m4a");
    s
}

/// The arguments yt-dlp is run with to fetch `video_id`'s m4a audio into
/// `out_path`.
pub fn ytdlp_args(video_id: &str, out_path: String) -> (r: Vec<String>)
    ensures
        r@.len() == 9,
        r@[0]@ == "-f"@,
        r@[1]@ == "140/bestaudio[ext=m4a]"@,
        r@[2]@ == "--no-playlist"@,
        r@[3]@ == "--quiet"@,
        r@[4]@ == "--no-warnings"@,
        r@[5]@ == "--force-overwrites"@,
        r@[6]@ == "-o"@,
        r@[7]@ == out_path@,
        r@[8]@ == watch_url(video_id@),
{
    let mut url = String::new();
    url.append("https://www.youtube.com/watch?v=");
    url.append(video_id);
    let mut v: Vec<String> = Vec::new();
    v.push("-f".to_string());
    v.push("140/bestaudio[ext=m4a]".to_string());
    v.push("--no-playlist".to_string());
    v.push("--quiet".to_string());
    v.push("--no-warnings".to_string());
    v.push("--force-overwrites".to_string());
    v.push("-o".to_string());
    v.push(out_path);
    v.push(url);
    v
}

/// The error for a yt-dlp run that failed with `stderr`.
pub fn ytdlp_failure(stderr: &str) -> (r: String)
    ensures
        r@ == "yt-dlp failed: "@ + trimmed(stderr@),
{
    let mut s = String::new();
    s.append("yt-dlp failed: ");
    let t = trim(stderr);
    s.append(t.as_str());
    s
}

/// What probing yt-dlp at `path` found: it ran (`ran`, printing `stdout`),
/// or not, in which case the path is still reported when it names a file.
pub fn ytdlp_status(path: String, ran: bool, stdout: &str, is_file: bool) -> (r: YtDlpStatus)
    ensures
        r.found == ran,
        ran ==> r.path == Some(path) && r.version is Some && r.version->0@ == trimmed(stdout@),
        !ran ==> r.version is None && r.path == if is_file {
            Some(path)
        } else {
            None
        },
{
    if ran {
        YtDlpStatus { found: true, path: Some(path), version: Some(trim(stdout)) }
    } else {
        YtDlpStatus { found: false, path: if is_file {
            Some(path)
        } else {
            None
        }, version: None }
    }
}

/// Where yt-dlp is looked for: a configured path takes priority, then a
/// location found earlier by probing.
pub struct YtDlpLocator {
    pub custom: Option<String>,
    /// A successful probe result; a failed probe is not remembered, so a
    /// later install is picked up without a restart.
    pub resolved: Option<String>,
}

/// The next step of resolving the yt-dlp executable.
pub enum Lookup {
    /// Use this path.
    Use(String),
    /// Probe the usual locations and report back with `probed`.
    Probe,
}

impl YtDlpLocator {
    /// A locator with nothing configured or found yet.
    pub fn new() -> (r: Self)
        ensures
            r.custom is None,
            r.resolved is None,
    {
        YtDlpLocator { custom: None, resolved: None }
    }

    /// Set (or clear with `None`) the configured yt-dlp path. Applied on the
    /// next lookup; an invalid path falls back to auto-detection.
    pub fn set_ytdlp_override(&mut self, path: Option<String>)
        ensures
            final(self).custom == path,
            final(self).resolved == old(self).resolved,
    {
        self.custom = path;
    }

    /// The first step of a lookup: the configured path when set and it names
    /// a file (`custom_is_file`), else a remembered probe result, else probe.
    pub fn lookup(&self, custom_is_file: bool) -> (r: Lookup)
        ensures
            self.custom is Some && custom_is_file ==> r == Lookup::Use(self.custom->0),
            !(self.custom is Some && custom_is_file) ==> match self.resolved {
                Some(p) => r == Lookup::Use(p),
                None => r is Probe,
            },
    {
        match &self.custom {
            Some(c) => {
                if custom_is_file {
                    return Lookup::Use(c.clone());
                }
            },
            None => {},
        }
        match &self.resolved {
            Some(p) => Lookup::Use(p.clone()),
            None => Lookup::Probe,
        }
    }

    /// Finish a lookup with what probing found: a found path is remembered
    /// and used; otherwise the bare executable name `bin` is used so the
    /// launch fails with a clear error, and nothing is remembered.
    pub fn probed(&mut self, found: Option<String>, bin: &str) -> (r: String)
        ensures
            final(self).custom == old(self).custom,
            match found {
                Some(p) => r == p && final(self).resolved == Some(p),
                None => r@ == bin@ && final(self).resolved == old(self).resolved,
            },
    {
        match found {
            Some(p) => {
                self.resolved = Some(p.clone());
                p
            },
            None => bin.to_string(),
        }
    }
}

} // verus!
