//! The per-download state machine: size probing, chunked transfer accounting,
//! and progress telemetry. The machine consumes the events one download
//! observes — the HEAD response, the GET response, each arriving chunk with a
//! clock reading, stream end, failures, and the cancellation signal — and
//! decides the phase transitions and which progress events to emit. All
//! network and file work happens outside and feeds its observations in here.

use vstd::prelude::*;

use crate::errors::DownloadError;
use crate::spec_status_is_success;
use crate::status_is_success;

verus! {

/// The lifecycle phase of one download. `Completed`, `Failed` and
/// `Cancelled` are terminal.
#[derive(Clone, Copy, Debug, PartialEq, Eq, Structural)]
pub enum Phase {
    /// Size discovery: HEAD sent, then GET; no bytes written yet.
    Probing,
    /// The GET body is being streamed to the destination file.
    Transferring,
    /// The body was exhausted; the file is complete.
    Completed,
    /// The download ended on an error.
    Failed(DownloadError),
    /// The download was cancelled at a chunk boundary.
    Cancelled,
}

/// `n`, or 0 when absent: how a missing `Content-Length` reads as a size.
pub open spec fn spec_length_or_zero(n: Option<u64>) -> u64 {
    match n {
        Some(v) => v,
        None => 0,
    }
}

/// The size the HEAD probe yields: its declared content length, or 0 when
/// the HEAD failed or declared none.
pub open spec fn spec_head_size(success: bool, content_length: Option<u64>) -> u64 {
    if success {
        spec_length_or_zero(content_length)
    } else {
        0
    }
}

/// The total transfer size: the HEAD's content length when it declared a
/// positive one, else the GET's (0 when the GET declared none either).
pub open spec fn spec_total_size(head_size: u64, get_content_length: Option<u64>) -> u64 {
    if head_size > 0 {
        head_size
    } else {
        spec_length_or_zero(get_content_length)
    }
}

/// The coarse progress percentage: `floor(downloaded * 100 / total)`, capped
/// at 100, and 0 while the total is unknown.
pub open spec fn percent_of(downloaded: u64, total: u64) -> int {
    if total == 0 {
        0
    } else if downloaded >= total {
        100
    } else {
        (downloaded as int) * 100 / (total as int)
    }
}

/// Whether a coarse progress event goes out: only with a known total, and
/// only when the percentage moved by at least one point or reached 100.
pub open spec fn spec_coarse_emits(total: u64, last_emitted: int, p: int) -> bool {
    total > 0 && (p >= last_emitted + 1 || p == 100)
}

/// Throughput over the elapsed window, in bytes per second, saturating at
/// `u64::MAX`.
pub open spec fn spec_speed(bytes_since: u64, elapsed_ms: u64) -> int
    recommends
        elapsed_ms > 0,
{
    let exact = (bytes_since as int) * 1000 / (elapsed_ms as int);
    if exact > u64::MAX as int {
        u64::MAX as int
    } else {
        exact
    }
}

/// Estimated seconds to completion: remaining bytes over throughput, absent
/// while the total is unknown, the throughput is zero, or more than the
/// declared total has already arrived.
pub open spec fn spec_eta(total: u64, downloaded: u64, speed: int) -> Option<u64> {
    if total > 0 && speed > 0 && downloaded <= total {
        Some((((total - downloaded) as int) / speed) as u64)
    } else {
        None
    }
}

/// A detailed progress event: percentage, byte counts, throughput and ETA.
#[derive(Clone, Copy, Debug, PartialEq, Eq, Structural)]
pub struct DetailedSample {
    /// Same percentage as the coarse stream, 0 while the total is unknown.
    pub percent: u64,
    /// Bytes written so far.
    pub downloaded: u64,
    /// The total transfer size, 0 while unknown.
    pub total: u64,
    /// Throughput over the window since the previous detailed event.
    pub bytes_per_second: u64,
    /// Estimated seconds to completion, when it can be computed.
    pub eta_seconds: Option<u64>,
}

/// The detailed event emitted for a window of `elapsed_ms` milliseconds in
/// which `bytes_since` bytes arrived.
pub open spec fn spec_detailed(
    total: u64,
    downloaded: u64,
    bytes_since: u64,
    elapsed_ms: u64,
) -> DetailedSample {
    DetailedSample {
        percent: percent_of(downloaded, total) as u64,
        downloaded,
        total,
        bytes_per_second: spec_speed(bytes_since, elapsed_ms) as u64,
        eta_seconds: spec_eta(total, downloaded, spec_speed(bytes_since, elapsed_ms)),
    }
}

/// What one chunk caused to be emitted.
#[derive(Clone, Copy, Debug, PartialEq, Eq, Structural)]
pub struct ChunkEvents {
    /// The detailed event, present at most once per 500 ms.
    pub detailed: Option<DetailedSample>,
    /// The coarse event: the new percentage, present only when it moved.
    pub coarse: Option<u64>,
}

/// The state of one download.
#[derive(Debug, Clone, Copy)]
pub struct Download {
    /// Where the download stands.
    pub phase: Phase,
    /// The size the HEAD probe yielded, 0 for none; fixed after the HEAD.
    pub head_size: u64,
    /// The total transfer size, 0 for unknown; fixed once Transferring.
    pub total_size: u64,
    /// Bytes written so far; non-decreasing.
    pub downloaded: u64,
    /// The last coarse percentage emitted (0 before the first).
    pub last_emitted_percent: u64,
    /// Clock reading at the start of the current telemetry window.
    pub last_sample_ms: u64,
    /// `downloaded` at the start of the current telemetry window.
    pub last_sample_bytes: u64,
}

impl Download {
    /// Internal consistency: the emitted percentage never passes 100, and
    /// the telemetry window never starts beyond what has arrived.
    pub open spec fn wf(self) -> bool {
        &&& self.last_emitted_percent <= 100
        &&& self.last_sample_bytes <= self.downloaded
    }

    /// Whether the download has reached a terminal outcome.
    pub open spec fn is_terminal(self) -> bool {
        match self.phase {
            Phase::Completed | Phase::Failed(_) | Phase::Cancelled => true,
            _ => false,
        }
    }

    /// A fresh download about to probe the server for its size.
    pub fn start() -> (d: Download)
        ensures
            d.wf(),
            d.phase == Phase::Probing,
            d.head_size == 0,
            d.total_size == 0,
            d.downloaded == 0,
            d.last_emitted_percent == 0,
    {
        Download {
            phase: Phase::Probing,
            head_size: 0,
            total_size: 0,
            downloaded: 0,
            last_emitted_percent: 0,
            last_sample_ms: 0,
            last_sample_bytes: 0,
        }
    }

    /// Record the HEAD response. A non-success HEAD is not fatal: it merely
    /// yields no size, and probing falls through to the GET response.
    pub fn on_head_response(&mut self, success: bool, content_length: Option<u64>)
        requires
            old(self).wf(),
            old(self).phase == Phase::Probing,
        ensures
            final(self).wf(),
            final(self).phase == Phase::Probing,
            final(self).head_size == spec_head_size(success, content_length),
            final(self).downloaded == old(self).downloaded,
            final(self).total_size == old(self).total_size,
            final(self).last_emitted_percent == old(self).last_emitted_percent,
    {
        if success {
            self.head_size = match content_length {
                Some(n) => n,
                None => 0,
            };
        } else {
            self.head_size = 0;
        }
    }

    /// Record the GET response that will carry the body. A non-success
    /// status ends the download with that status; otherwise the total size
    /// is fixed, the telemetry window is anchored at `now_ms`, and the
    /// transfer begins.
    pub fn on_get_response(&mut self, status: u16, content_length: Option<u64>, now_ms: u64) -> (r:
        Result<(), DownloadError>)
        requires
            old(self).wf(),
            old(self).phase == Phase::Probing,
        ensures
            final(self).wf(),
            !spec_status_is_success(status) ==> final(self).phase == Phase::Failed(
                DownloadError::HttpStatus(status),
            ) && r == Err::<(), DownloadError>(DownloadError::HttpStatus(status)),
            spec_status_is_success(status) ==> {
                &&& final(self).phase == Phase::Transferring
                &&& final(self).total_size == spec_total_size(old(self).head_size, content_length)
                &&& final(self).downloaded == 0
                &&& final(self).last_emitted_percent == 0
                &&& final(self).last_sample_ms == now_ms
                &&& final(self).last_sample_bytes == 0
                &&& r == Ok::<(), DownloadError>(())
            },
    {
        if !status_is_success(status) {
            self.phase = Phase::Failed(DownloadError::HttpStatus(status));
            return Err(DownloadError::HttpStatus(status));
        }
        let get_len = match content_length {
            Some(n) => n,
            None => 0,
        };
        self.total_size = if self.head_size > 0 {
            self.head_size
        } else {
            get_len
        };
        self.downloaded = 0;
        self.last_emitted_percent = 0;
        self.last_sample_ms = now_ms;
        self.last_sample_bytes = 0;
        self.phase = Phase::Transferring;
        Ok(())
    }

    /// Account one chunk that was appended to the destination file and
    /// decide the progress events it triggers.
    ///
    /// The detailed event fires at most once per 500 ms of wall-clock time;
    /// the coarse event fires only when the percentage gained at least one
    /// whole point or reached 100, so the coarse percentages of one download
    /// never decrease, and reaching the declared total always emits 100.
    pub fn on_chunk(&mut self, chunk_len: u64, now_ms: u64) -> (ev: ChunkEvents)
        requires
            old(self).wf(),
            old(self).phase == Phase::Transferring,
            old(self).downloaded + chunk_len <= u64::MAX,
            now_ms >= old(self).last_sample_ms,
        ensures
            final(self).wf(),
            final(self).phase == Phase::Transferring,
            final(self).downloaded == old(self).downloaded + chunk_len,
            final(self).total_size == old(self).total_size,
            final(self).head_size == old(self).head_size,
            // Detailed telemetry: gated by wall-clock time.
            if now_ms - old(self).last_sample_ms >= 500 {
                &&& ev.detailed == Some(
                    spec_detailed(
                        old(self).total_size,
                        (old(self).downloaded + chunk_len) as u64,
                        (old(self).downloaded + chunk_len - old(self).last_sample_bytes) as u64,
                        (now_ms - old(self).last_sample_ms) as u64,
                    ),
                )
                &&& final(self).last_sample_ms == now_ms
                &&& final(self).last_sample_bytes == final(self).downloaded
            } else {
                &&& ev.detailed is None
                &&& final(self).last_sample_ms == old(self).last_sample_ms
                &&& final(self).last_sample_bytes == old(self).last_sample_bytes
            },
            // Coarse telemetry: gated by percentage-point delta.
            if spec_coarse_emits(
                old(self).total_size,
                old(self).last_emitted_percent as int,
                percent_of((old(self).downloaded + chunk_len) as u64, old(self).total_size),
            ) {
                &&& ev.coarse == Some(
                    percent_of(
                        (old(self).downloaded + chunk_len) as u64,
                        old(self).total_size,
                    ) as u64,
                )
                &&& final(self).last_emitted_percent as int == percent_of(
                    (old(self).downloaded + chunk_len) as u64,
                    old(self).total_size,
                )
            } else {
                &&& ev.coarse is None
                &&& final(self).last_emitted_percent == old(self).last_emitted_percent
            },
            // Coarse percentages never decrease.
            ev.coarse matches Some(q) ==> q >= old(self).last_emitted_percent,
            // Reaching a known total emits exactly 100.
            (old(self).total_size > 0 && old(self).downloaded + chunk_len >= old(self).total_size)
                ==> ev.coarse == Some(100u64),
            // And 100 is emitted only then.
            ev.coarse == Some(100u64) ==> old(self).total_size > 0 && old(self).downloaded
                + chunk_len >= old(self).total_size,
    {
        let new_downloaded = self.downloaded + chunk_len;
        self.downloaded = new_downloaded;

        let elapsed = now_ms - self.last_sample_ms;
        let detailed: Option<DetailedSample> = if elapsed >= 500 {
            let bytes_since = new_downloaded - self.last_sample_bytes;
            let speed = speed_bps(bytes_since, elapsed);
            let eta: Option<u64> = if self.total_size > 0 && speed > 0 && new_downloaded
                <= self.total_size {
                Some((self.total_size - new_downloaded) / speed)
            } else {
                None
            };
            let pct = percent(new_downloaded, self.total_size);
            self.last_sample_ms = now_ms;
            self.last_sample_bytes = new_downloaded;
            Some(
                DetailedSample {
                    percent: pct,
                    downloaded: new_downloaded,
                    total: self.total_size,
                    bytes_per_second: speed,
                    eta_seconds: eta,
                },
            )
        } else {
            None
        };

        let coarse: Option<u64> = if self.total_size > 0 {
            let p = percent(new_downloaded, self.total_size);
            if p >= self.last_emitted_percent + 1 || p == 100 {
                self.last_emitted_percent = p;
                Some(p)
            } else {
                None
            }
        } else {
            None
        };

        proof {
            if self.total_size > 0 && new_downloaded < self.total_size {
                lemma_percent_lt_100(new_downloaded, self.total_size);
            }
        }
        ChunkEvents { detailed, coarse }
    }

    /// The body stream is exhausted: the transfer completed.
    pub fn on_stream_end(&mut self)
        requires
            old(self).wf(),
            old(self).phase == Phase::Transferring,
        ensures
            final(self).wf(),
            final(self).phase == Phase::Completed,
            final(self).downloaded == old(self).downloaded,
            final(self).total_size == old(self).total_size,
            final(self).last_emitted_percent == old(self).last_emitted_percent,
    {
        self.phase = Phase::Completed;
    }

    /// The cancellation signal was observed at a chunk boundary: the
    /// download ends as `Cancelled`, leaving the partial file.
    pub fn on_cancel_signal(&mut self)
        requires
            old(self).wf(),
            old(self).phase == Phase::Transferring,
        ensures
            final(self).wf(),
            final(self).phase == Phase::Cancelled,
            final(self).downloaded == old(self).downloaded,
            final(self).total_size == old(self).total_size,
            final(self).last_emitted_percent == old(self).last_emitted_percent,
    {
        self.phase = Phase::Cancelled;
    }

    /// A non-terminal download ends on `error` (path resolution, file I/O,
    /// or a network failure).
    pub fn on_failure(&mut self, error: DownloadError)
        requires
            old(self).wf(),
            !old(self).is_terminal(),
        ensures
            final(self).wf(),
            final(self).phase == Phase::Failed(error),
            final(self).downloaded == old(self).downloaded,
            final(self).total_size == old(self).total_size,
            final(self).last_emitted_percent == old(self).last_emitted_percent,
    {
        self.phase = Phase::Failed(error);
    }
}

/// With a positive total, a partial transfer stays strictly under 100
/// percent.
proof fn lemma_percent_lt_100(d: u64, t: u64)
    requires
        0 < t,
        d < t,
    ensures
        0 <= (d as int) * 100 / (t as int) < 100,
{
    let di = d as int;
    let ti = t as int;
    vstd::arithmetic::div_mod::lemma_fundamental_div_mod(di * 100, ti);
    let q = di * 100 / ti;
    let r = di * 100 % ti;
    assert(di * 100 < ti * 100) by (nonlinear_arith)
        requires
            di < ti,
            ti > 0,
    ;
    if q >= 100 {
        vstd::arithmetic::mul::lemma_mul_inequality(100, q, ti);
        assert(false);
    }
    if q < 0 {
        vstd::arithmetic::mul::lemma_mul_inequality(q, -1, ti);
        assert(false);
    }
}

/// Executable form of [`percent_of`].
fn percent(downloaded: u64, total: u64) -> (p: u64)
    ensures
        p as int == percent_of(downloaded, total),
        p <= 100,
{
    if total == 0 {
        0
    } else if downloaded >= total {
        100
    } else {
        proof {
            lemma_percent_lt_100(downloaded, total);
        }
        let q: u128 = (downloaded as u128) * 100 / (total as u128);
        q as u64
    }
}

/// Executable form of [`spec_speed`].
fn speed_bps(bytes_since: u64, elapsed_ms: u64) -> (s: u64)
    requires
        elapsed_ms > 0,
    ensures
        s as int == spec_speed(bytes_since, elapsed_ms),
{
    let q: u128 = (bytes_since as u128) * 1000 / (elapsed_ms as u128);
    if q > u64::MAX as u128 {
        u64::MAX
    } else {
        q as u64
    }
}

/// The coarse percentages one download emits, given the cumulative byte
/// counts at its successive chunk boundaries: the fold of the decision
/// [`spec_coarse_emits`] that [`Download::on_chunk`] implements, starting
/// from the last percentage emitted so far.
pub open spec fn spec_emitted_percents(total: u64, last_emitted: int, counts: Seq<u64>) -> Seq<int>
    decreases counts.len(),
{
    if counts.len() == 0 {
        Seq::empty()
    } else {
        let p = percent_of(counts[0], total);
        if spec_coarse_emits(total, last_emitted, p) {
            seq![p] + spec_emitted_percents(total, p, counts.drop_first())
        } else {
            spec_emitted_percents(total, last_emitted, counts.drop_first())
        }
    }
}

/// The coarse percentage is always between 0 and 100.
pub proof fn lemma_percent_bounds(d: u64, total: u64)
    ensures
        0 <= percent_of(d, total) <= 100,
{
    if total > 0 && d < total {
        lemma_percent_lt_100(d, total);
    }
}

/// Coarse progress events of one download are non-decreasing in percentage:
/// whatever cumulative byte counts its chunks reach, each emitted
/// percentage is at least the one emitted before it (and at least whatever
/// was emitted last before the window began).
pub proof fn lemma_coarse_nondecreasing(total: u64, last_emitted: int, counts: Seq<u64>)
    requires
        0 <= last_emitted <= 100,
    ensures
        forall|i: int, j: int|
            0 <= i <= j < spec_emitted_percents(total, last_emitted, counts).len()
                ==> #[trigger] spec_emitted_percents(total, last_emitted, counts)[i]
                <= #[trigger] spec_emitted_percents(total, last_emitted, counts)[j],
        forall|i: int|
            0 <= i < spec_emitted_percents(total, last_emitted, counts).len()
                ==> last_emitted <= #[trigger] spec_emitted_percents(total, last_emitted, counts)[i]
                <= 100,
    decreases counts.len(),
{
    let e = spec_emitted_percents(total, last_emitted, counts);
    if counts.len() > 0 {
        let p = percent_of(counts[0], total);
        lemma_percent_bounds(counts[0], total);
        if spec_coarse_emits(total, last_emitted, p) {
            lemma_coarse_nondecreasing(total, p, counts.drop_first());
            let rest = spec_emitted_percents(total, p, counts.drop_first());
            assert(e == seq![p] + rest);
            assert(e[0] == p);
            assert(forall|k: int| 0 <= k < rest.len() ==> e[k + 1] == #[trigger] rest[k]);
            assert forall|i: int, j: int| 0 <= i <= j < e.len() implies #[trigger] e[i]
                <= #[trigger] e[j] by {
                if 0 < i {
                    assert(e[i] == rest[i - 1] && e[j] == rest[j - 1]);
                } else if 0 < j {
                    assert(e[j] == rest[j - 1]);
                }
            }
            assert forall|i: int| 0 <= i < e.len() implies last_emitted <= #[trigger] e[i]
                <= 100 by {
                if 0 < i {
                    assert(e[i] == rest[i - 1]);
                }
            }
        } else {
            lemma_coarse_nondecreasing(total, last_emitted, counts.drop_first());
            assert(e == spec_emitted_percents(total, last_emitted, counts.drop_first()));
        }
    }
}

/// A download with a known total whose bytes reach that total emits a final
/// coarse event of exactly 100.
pub proof fn lemma_coarse_ends_at_100(total: u64, last_emitted: int, counts: Seq<u64>)
    requires
        total > 0,
        counts.len() > 0,
        counts.last() >= total,
    ensures
        spec_emitted_percents(total, last_emitted, counts).len() > 0,
        spec_emitted_percents(total, last_emitted, counts).last() == 100,
    decreases counts.len(),
{
    let p = percent_of(counts[0], total);
    let e = spec_emitted_percents(total, last_emitted, counts);
    if counts.len() == 1 {
        assert(p == 100);
        assert(spec_coarse_emits(total, last_emitted, p));
        assert(spec_emitted_percents(total, p, counts.drop_first()) =~= Seq::<int>::empty());
        assert(e == seq![p] + Seq::<int>::empty());
        assert(e.last() == p);
    } else {
        assert(counts.drop_first().last() == counts.last());
        if spec_coarse_emits(total, last_emitted, p) {
            lemma_coarse_ends_at_100(total, p, counts.drop_first());
            let rest = spec_emitted_percents(total, p, counts.drop_first());
            assert(e == seq![p] + rest);
            assert(e.last() == rest.last());
        } else {
            lemma_coarse_ends_at_100(total, last_emitted, counts.drop_first());
            assert(e == spec_emitted_percents(total, last_emitted, counts.drop_first()));
        }
    }
}

/// A coarse event of 100 is emitted only once the bytes have reached the
/// declared total: if the last emitted percentage of a run is 100, the run's
/// final byte count is at least the total.
pub proof fn lemma_coarse_100_needs_total(total: u64, last_emitted: int, counts: Seq<u64>)
    requires
        total > 0,
        forall|i: int, j: int| 0 <= i <= j < counts.len() ==> counts[i] <= counts[j],
        spec_emitted_percents(total, last_emitted, counts).len() > 0,
        spec_emitted_percents(total, last_emitted, counts).last() == 100,
    ensures
        counts.len() > 0,
        counts.last() >= total,
    decreases counts.len(),
{
    let e = spec_emitted_percents(total, last_emitted, counts);
    let p = percent_of(counts[0], total);
    let dropped = counts.drop_first();
    assert(forall|i: int, j: int| 0 <= i <= j < dropped.len() ==> #[trigger] dropped[i] <= #[trigger] dropped[j]);
    if spec_coarse_emits(total, last_emitted, p) {
        let rest = spec_emitted_percents(total, p, dropped);
        assert(e == seq![p] + rest);
        if rest.len() == 0 {
            assert(e.last() == p);
            if counts[0] < total {
                lemma_percent_lt_100(counts[0], total);
            }
            assert(counts.last() >= counts[0]);
        } else {
            assert(e.last() == rest.last());
            lemma_coarse_100_needs_total(total, p, dropped);
            assert(counts.last() == dropped.last());
        }
    } else {
        assert(e == spec_emitted_percents(total, last_emitted, dropped));
        lemma_coarse_100_needs_total(total, last_emitted, dropped);
        assert(counts.last() == dropped.last());
    }
}

/// Run the coarse-telemetry decisions of a whole transfer at once: feed the
/// cumulative byte count at each chunk boundary through
/// [`Download::on_chunk`] and collect what was emitted. The collected
/// percentages are exactly the trace [`spec_emitted_percents`] describes, of
/// which [`lemma_coarse_nondecreasing`], [`lemma_coarse_ends_at_100`] and
/// [`lemma_coarse_100_needs_total`] hold.
pub fn coarse_events_of_run(d: &mut Download, counts: &Vec<u64>) -> (emitted: Vec<u64>)
    requires
        old(d).wf(),
        old(d).phase == Phase::Transferring,
        counts@.len() > 0 ==> counts@[0] >= old(d).downloaded,
        forall|i: int, j: int| 0 <= i <= j < counts@.len() ==> counts@[i] <= counts@[j],
    ensures
        final(d).wf(),
        final(d).phase == Phase::Transferring,
        final(d).total_size == old(d).total_size,
        final(d).downloaded == if counts@.len() == 0 {
            old(d).downloaded
        } else {
            counts@.last()
        },
        emitted@.map_values(|p: u64| p as int) == spec_emitted_percents(
            old(d).total_size,
            old(d).last_emitted_percent as int,
            counts@,
        ),
{
    let mut emitted: Vec<u64> = Vec::new();
    let n = counts.len();
    let mut i: usize = 0;
    proof {
        assert(counts@.skip(0) =~= counts@);
        assert(emitted@.map_values(|p: u64| p as int) =~= Seq::<int>::empty());
    }
    while i < n
        invariant
            i <= n,
            n == counts@.len(),
            d.wf(),
            d.phase == Phase::Transferring,
            d.total_size == old(d).total_size,
            d.downloaded == if i == 0 {
                old(d).downloaded
            } else {
                counts@[i - 1]
            },
            counts@.len() > 0 ==> counts@[0] >= old(d).downloaded,
            forall|a: int, b: int| 0 <= a <= b < counts@.len() ==> counts@[a] <= counts@[b],
            spec_emitted_percents(
                old(d).total_size,
                old(d).last_emitted_percent as int,
                counts@,
            ) == emitted@.map_values(|p: u64| p as int) + spec_emitted_percents(
                d.total_size,
                d.last_emitted_percent as int,
                counts@.skip(i as int),
            ),
        decreases n - i,
    {
        let target = counts[i];
        let chunk_len = target - d.downloaded;
        let ghost pre_last = d.last_emitted_percent as int;
        let ghost pre_emitted = emitted@;
        let ev = d.on_chunk(chunk_len, d.last_sample_ms);
        proof {
            assert(counts@.skip(i as int)[0] == counts@[i as int]);
            assert(counts@.skip(i as int).drop_first() =~= counts@.skip(i as int + 1));
        }
        if let Some(p) = ev.coarse {
            emitted.push(p);
            proof {
                let pre_map = pre_emitted.map_values(|q: u64| q as int);
                let rest = spec_emitted_percents(
                    d.total_size,
                    d.last_emitted_percent as int,
                    counts@.skip(i as int + 1),
                );
                assert(emitted@.map_values(|q: u64| q as int) =~= pre_map + seq![p as int]);
                assert(spec_emitted_percents(d.total_size, pre_last, counts@.skip(i as int))
                    == seq![p as int] + rest);
                assert((pre_map + seq![p as int]) + rest =~= pre_map + (seq![p as int] + rest));
            }
        }
        i = i + 1;
    }
    proof {
        assert(counts@.skip(n as int) =~= Seq::<u64>::empty());
        assert(spec_emitted_percents(
            d.total_size,
            d.last_emitted_percent as int,
            Seq::<u64>::empty(),
        ) =~= Seq::<int>::empty());
        assert(emitted@.map_values(|q: u64| q as int) + Seq::<int>::empty() =~= emitted@.map_values(
            |q: u64| q as int,
        ));
    }
    emitted
}

/// The coarse percentage never decreases as bytes arrive.
pub proof fn lemma_percent_monotone(d1: u64, d2: u64, total: u64)
    requires
        d1 <= d2,
    ensures
        percent_of(d1, total) <= percent_of(d2, total),
{
    if total > 0 && d2 < total {
        vstd::arithmetic::mul::lemma_mul_inequality(d1 as int, d2 as int, 100);
        vstd::arithmetic::div_mod::lemma_div_is_ordered(
            (d1 as int) * 100,
            (d2 as int) * 100,
            total as int,
        );
    } else if total > 0 && d1 < total {
        lemma_percent_lt_100(d1, total);
    }
}

} // verus!
