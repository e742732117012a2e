//! Planning and accounting for segment downloads.
//!
//! A job downloads the channel's two initialization segments once, then a
//! video and an audio media segment per index of its range. The fetch
//! primitive is idempotent over a warm cache directory: a destination
//! that already exists is never fetched again, and a failed transfer
//! leaves no partial file behind, so a retry never sees a corrupt cache.
//! `SegmentFetcher` is the verified account of that discipline: the
//! filesystem and network effects it tracks are carried out at the
//! boundary, which reports each transfer's outcome back.

use vstd::prelude::*;

use crate::encoder::TrackKind;
use crate::encoder::init_segment_path;
use crate::encoder::init_segment_path_text;
use crate::encoder::segment_media_path;
use crate::encoder::segment_media_path_text;
use crate::text::dec_rep;
use crate::text::usize_to_string;

verus! {

/// The remote address of one media segment of a track.
pub open spec fn segment_url_text(url_prefix: Seq<char>, kind: TrackKind, idx: nat) -> Seq<char> {
    match kind {
        TrackKind::Video => url_prefix + "t=3840/v=pv14/b=5070016/"@ + dec_rep(idx) + ".m4s"@,
        TrackKind::Audio => url_prefix + "t=3840/a=pa3/al=en-GB/ap=main/b=96000/"@ + dec_rep(idx)
            + ".m4s"@,
    }
}

/// The remote address of one media segment of a track.
pub fn segment_url(url_prefix: &str, kind: TrackKind, idx: usize) -> (u: String)
    ensures
        u@ == segment_url_text(url_prefix@, kind, idx as nat),
{
    let mut u = url_prefix.to_owned();
    match kind {
        TrackKind::Video => u.append("t=3840/v=pv14/b=5070016/"),
        TrackKind::Audio => u.append("t=3840/a=pa3/al=en-GB/ap=main/b=96000/"),
    }
    let n = usize_to_string(idx);
    u.append(n.as_str());
    u.append(".m4s");
    u
}

/// The remote address of a track's initialization segment.
pub open spec fn init_url_text(url_prefix: Seq<char>, kind: TrackKind) -> Seq<char> {
    match kind {
        TrackKind::Video => url_prefix + "v=pv14/b=5070016/segment.init"@,
        TrackKind::Audio => url_prefix + "a=pa3/al=en-GB/ap=main/b=96000/segment.init"@,
    }
}

/// The remote address of a track's initialization segment.
pub fn init_url(url_prefix: &str, kind: TrackKind) -> (u: String)
    ensures
        u@ == init_url_text(url_prefix@, kind),
{
    let mut u = url_prefix.to_owned();
    match kind {
        TrackKind::Video => u.append("v=pv14/b=5070016/segment.init"),
        TrackKind::Audio => u.append("a=pa3/al=en-GB/ap=main/b=96000/segment.init"),
    }
    u
}

/// One media segment's transfers: a video and an audio fetch.
pub struct SegmentDownload {
    pub segment_idx: usize,
    pub video_url: String,
    pub video_path: String,
    pub audio_url: String,
    pub audio_path: String,
}

/// Whether a download entry addresses segment `idx` of the job at
/// `uuid`, fetched from `url_prefix`.
pub open spec fn download_entry_ok(
    e: SegmentDownload,
    url_prefix: Seq<char>,
    uuid: Seq<char>,
    idx: int,
) -> bool {
    &&& e.segment_idx == idx
    &&& e.video_url@ == segment_url_text(url_prefix, TrackKind::Video, idx as nat)
    &&& e.video_path@ == segment_media_path_text(uuid, TrackKind::Video, idx as nat)
    &&& e.audio_url@ == segment_url_text(url_prefix, TrackKind::Audio, idx as nat)
    &&& e.audio_path@ == segment_media_path_text(uuid, TrackKind::Audio, idx as nat)
}

/// Lay out every media-segment transfer of a job's range, in order. The
/// boundary runs them with its bounded fan-out.
pub fn download_plan(url_prefix: &str, uuid: &str, first: usize, last: usize) -> (plan: Vec<
    SegmentDownload,
>)
    requires
        first <= last,
        last < usize::MAX,
    ensures
        plan@.len() == last - first + 1,
        forall|k: int|
            0 <= k < plan@.len() ==> download_entry_ok(
                #[trigger] plan@[k],
                url_prefix@,
                uuid@,
                first + k,
            ),
{
    let mut plan: Vec<SegmentDownload> = Vec::new();
    let mut idx: usize = first;
    while idx <= last
        invariant
            first <= idx <= last + 1,
            last < usize::MAX,
            plan@.len() == idx - first,
            forall|k: int|
                0 <= k < plan@.len() ==> download_entry_ok(
                    #[trigger] plan@[k],
                    url_prefix@,
                    uuid@,
                    first + k,
                ),
        decreases last + 1 - idx,
    {
        plan.push(
            SegmentDownload {
                segment_idx: idx,
                video_url: segment_url(url_prefix, TrackKind::Video, idx),
                video_path: segment_media_path(uuid, TrackKind::Video, idx),
                audio_url: segment_url(url_prefix, TrackKind::Audio, idx),
                audio_path: segment_media_path(uuid, TrackKind::Audio, idx),
            },
        );
        idx += 1;
    }
    plan
}

/// The two initialization-segment transfers of a channel.
pub fn init_download_plan(url_prefix: &str, channel: &str) -> (plan: [(String, String); 2])
    ensures
        plan[0].0@ == init_url_text(url_prefix@, TrackKind::Video),
        plan[0].1@ == init_segment_path_text(channel@, TrackKind::Video),
        plan[1].0@ == init_url_text(url_prefix@, TrackKind::Audio),
        plan[1].1@ == init_segment_path_text(channel@, TrackKind::Audio),
{
    [
        (init_url(url_prefix, TrackKind::Video), init_segment_path(channel, TrackKind::Video)),
        (init_url(url_prefix, TrackKind::Audio), init_segment_path(channel, TrackKind::Audio)),
    ]
}

/// Whether two strings hold the same characters.
fn str_eq(a: &str, b: &str) -> (r: bool)
    ensures
        r <==> a@ == b@,
{
    let n = a.unicode_len();
    if n != b.unicode_len() {
        return false;
    }
    let mut i: usize = 0;
    while i < n
        invariant
            n == a@.len(),
            n == b@.len(),
            0 <= i <= n,
            forall|k: int| 0 <= k < i ==> a@[k] == b@[k],
        decreases n - i,
    {
        if a.get_char(i) != b.get_char(i) {
            return false;
        }
        i += 1;
    }
    proof {
        assert(a@ =~= b@);
    }
    true
}

/// How one fetch ended.
#[derive(Clone, Copy, Debug, PartialEq, Eq, Structural)]
pub enum FetchOutcome {
    /// The destination already existed: no network transfer was made.
    AlreadyPresent,
    /// The resource was transferred and the destination now exists.
    Downloaded,
    /// The transfer failed; the partly-written destination was removed,
    /// so the destination does not exist.
    Failed,
}

/// What one fetch does to the cache: which destinations exist afterwards,
/// which network transfers have been made, and how the call ended.
pub open spec fn fetch_step(
    present: Seq<Seq<char>>,
    transfers: Seq<Seq<char>>,
    url: Seq<char>,
    path: Seq<char>,
    transfer_ok: bool,
) -> (Seq<Seq<char>>, Seq<Seq<char>>, FetchOutcome) {
    if present.contains(path) {
        (present, transfers, FetchOutcome::AlreadyPresent)
    } else if transfer_ok {
        (present.push(path), transfers.push(url), FetchOutcome::Downloaded)
    } else {
        (present, transfers.push(url), FetchOutcome::Failed)
    }
}

/// The verified account of the fetch-if-absent discipline: which
/// destination files exist, and every network transfer made. The
/// boundary performs the transfer and reports whether it succeeded; a
/// failure stands for any connection error, non-success status or write
/// error, after which the partial destination file is removed.
pub struct SegmentFetcher {
    present: Vec<String>,
    transfers: Ghost<Seq<Seq<char>>>,
}

impl SegmentFetcher {
    /// The destinations that exist.
    pub closed spec fn present_paths(&self) -> Seq<Seq<char>> {
        self.present@.map_values(|p: String| p@)
    }

    /// Every network transfer made, in order, by target address.
    pub closed spec fn transfer_log(&self) -> Seq<Seq<char>> {
        self.transfers@
    }

    /// A fetcher over a cold cache.
    pub fn new() -> (f: SegmentFetcher)
        ensures
            f.present_paths() == Seq::<Seq<char>>::empty(),
            f.transfer_log() == Seq::<Seq<char>>::empty(),
    {
        let f = SegmentFetcher { present: Vec::new(), transfers: Ghost(Seq::empty()) };
        proof {
            assert(f.present_paths() =~= Seq::<Seq<char>>::empty());
        }
        f
    }

    /// Whether a destination exists.
    pub fn is_present(&self, path: &str) -> (r: bool)
        ensures
            r <==> self.present_paths().contains(path@),
    {
        let n = self.present.len();
        let mut i: usize = 0;
        while i < n
            invariant
                n == self.present@.len(),
                0 <= i <= n,
                forall|k: int| 0 <= k < i ==> self.present@[k]@ != path@,
            decreases n - i,
        {
            if str_eq(self.present[i].as_str(), path) {
                proof {
                    assert(self.present_paths()[i as int] == path@);
                }
                return true;
            }
            i += 1;
        }
        proof {
            assert forall|k: int| 0 <= k < self.present_paths().len() implies self.present_paths()[k]
                != path@ by {
                assert(self.present_paths()[k] == self.present@[k]@);
            }
        }
        false
    }

    /// Fetch a resource to a destination unless it already exists, with
    /// failure cleanup, exactly as `fetch_step` says. Returns whether the
    /// resource was downloaded. The boundary's part is the transfer
    /// itself; `transfer_ok` reports how it went.
    pub fn fetch(&mut self, url: &str, path: &str, transfer_ok: bool) -> (outcome: FetchOutcome)
        ensures
            (final(self).present_paths(), final(self).transfer_log(), outcome) == fetch_step(
                old(self).present_paths(),
                old(self).transfer_log(),
                url@,
                path@,
                transfer_ok,
            ),
    {
        if self.is_present(path) {
            return FetchOutcome::AlreadyPresent;
        }
        self.transfers = Ghost(self.transfers@.push(url@));
        if transfer_ok {
            self.present.push(path.to_owned());
            proof {
                assert(self.present_paths() =~= old(self).present_paths().push(path@));
            }
            FetchOutcome::Downloaded
        } else {
            FetchOutcome::Failed
        }
    }
}

/// Fetching the same destination twice performs network I/O only once:
/// once a fetch has ended `AlreadyPresent` or `Downloaded`, a repeated
/// fetch of that destination makes no further transfer. And a failed
/// fetch leaves no partial file: the destination does not exist
/// afterwards, so a retry transfers it afresh.
pub proof fn lemma_fetch_idempotent(
    present: Seq<Seq<char>>,
    transfers: Seq<Seq<char>>,
    url1: Seq<char>,
    url2: Seq<char>,
    path: Seq<char>,
    ok1: bool,
    ok2: bool,
)
    ensures
        ({
            let (present1, transfers1, outcome1) = fetch_step(present, transfers, url1, path, ok1);
            let (present2, transfers2, outcome2) = fetch_step(
                present1,
                transfers1,
                url2,
                path,
                ok2,
            );
            &&& outcome1 != FetchOutcome::Failed ==> transfers2 == transfers1 && outcome2
                == FetchOutcome::AlreadyPresent
            &&& outcome1 == FetchOutcome::Failed ==> !present1.contains(path) && present1
                == present
        }),
{
    let (present1, transfers1, outcome1) = fetch_step(present, transfers, url1, path, ok1);
    if outcome1 != FetchOutcome::Failed {
        assert(present1.contains(path)) by {
            if !present.contains(path) && ok1 {
                assert(present1.last() == path);
            }
        }
    }
}

} // verus!
