//! Rules of a resumable HTTP transfer: whether a response may be appended to the
//! partial file, when a broken stream is retried, and how speed is averaged.

use vstd::prelude::*;

use crate::ports::{DownloadProgressSink, ReportingSink};
use crate::text::{parse_u64, spec_parse_u64, str_chars};

verus! {

/// What the worker does with a response: reopen the file, stream on, or report.
#[derive(Debug, Clone, Copy, PartialEq, Eq, Structural)]
pub enum ResponseAction {
    Stream { total: u64 },
    RestartFromBeginning { total: u64 },
    InvalidRange,
    AlreadyComplete,
    LinkExpired,
    HttpError(u16),
}

/// How one read of a response stream ended: completed, waiting to resume, or the
/// link is to be fetched again.
#[derive(Debug, Clone, Copy, PartialEq, Eq, Structural)]
pub enum StreamOutcome {
    Completed,
    Paused,
    Canceled,
    Retry,
    Failed,
}

/// The characters of an optional header value.
pub open spec fn opt_chars(o: Option<&str>) -> Option<Seq<char>> {
    match o {
        Some(s) => Some(s@),
        None => None,
    }
}

/// Where the text after the last `/` at or before `j` begins (0 without one).
pub open spec fn spec_after_slash_start(s: Seq<char>, j: int) -> int
    decreases j,
{
    if j <= 0 {
        0
    } else if s[j - 1] == '/' {
        j
    } else {
        spec_after_slash_start(s, j - 1)
    }
}

/// The text after the last `/`, or all of it (`rsplit('/').next()`).
pub open spec fn spec_last_segment(s: Seq<char>) -> Seq<char> {
    s.subrange(spec_after_slash_start(s, s.len() as int), s.len() as int)
}

/// The index of the first `-` at or after `i`, or the length.
pub open spec fn spec_dash_index(s: Seq<char>, i: int) -> int
    decreases s.len() - i,
{
    if i < 0 || i >= s.len() {
        s.len() as int
    } else if s[i] == '-' {
        i
    } else {
        spec_dash_index(s, i + 1)
    }
}

/// The text before the first `-`, or all of it (`split('-').next()`).
pub open spec fn spec_first_segment(s: Seq<char>) -> Seq<char> {
    s.subrange(0, spec_dash_index(s, 0))
}

/// The rest of `s` after the prefix `p`, if `s` starts with it.
pub open spec fn spec_strip_prefix(s: Seq<char>, p: Seq<char>) -> Option<Seq<char>> {
    if p.len() <= s.len() && s.take(p.len() as int) == p {
        Some(s.skip(p.len() as int))
    } else {
        None
    }
}

/// The whole-file size a response reports: the number after the last `/` of
/// `Content-Range`, or without that header the `Content-Length`.
pub open spec fn spec_reported_size(range: Option<Seq<char>>, length: Option<Seq<char>>) -> Option<
    u64,
> {
    match range {
        Some(r) => spec_parse_u64(spec_last_segment(r)),
        None => match length {
            Some(l) => spec_parse_u64(l),
            None => None,
        },
    }
}

/// The transfer's total size: a reported positive size, else the fallback.
pub open spec fn spec_total(range: Option<Seq<char>>, length: Option<Seq<char>>, fallback: u64) -> u64 {
    match spec_reported_size(range, length) {
        Some(v) => if v > 0 {
            v
        } else {
            fallback
        },
        None => fallback,
    }
}

/// The first byte of a `Content-Range: bytes <start>-...` header.
pub open spec fn spec_range_start(range: Option<Seq<char>>) -> Option<u64> {
    match range {
        Some(r) => match spec_strip_prefix(r, "bytes "@) {
            Some(rest) => spec_parse_u64(spec_first_segment(rest)),
            None => None,
        },
        None => None,
    }
}

/// The decision for a response with the given status and headers when
/// `downloaded` bytes are already on disk.
pub open spec fn spec_classify_response(
    status: u16,
    range: Option<Seq<char>>,
    length: Option<Seq<char>>,
    downloaded: u64,
    fallback: u64,
) -> ResponseAction {
    let total = spec_total(range, length, fallback);
    if downloaded > 0 && status == 200 {
        ResponseAction::RestartFromBeginning { total }
    } else if downloaded > 0 && status == 206 && spec_range_start(range) != Some(downloaded) {
        ResponseAction::InvalidRange
    } else if status == 416 {
        ResponseAction::AlreadyComplete
    } else if status == 403 || status == 404 || status == 410 {
        ResponseAction::LinkExpired
    } else if 400 <= status && status < 600 {
        ResponseAction::HttpError(status)
    } else {
        ResponseAction::Stream { total }
    }
}

/// The text after the last `/`.
fn last_segment(s: &[char]) -> (r: Vec<char>)
    ensures
        r@ == spec_last_segment(s@),
{
    let mut j = s.len();
    while j > 0 && s[j - 1] != '/'
        invariant
            j <= s.len(),
            spec_after_slash_start(s@, s.len() as int) == spec_after_slash_start(s@, j as int),
        decreases j,
    {
        j = j - 1;
    }
    let mut r: Vec<char> = Vec::new();
    let mut k = j;
    while k < s.len()
        invariant
            j <= k <= s.len(),
            r@ == s@.subrange(j as int, k as int),
        decreases s.len() - k,
    {
        r.push(s[k]);
        k = k + 1;
    }
    r
}

/// The first byte of a `Content-Range: bytes <start>-...` header.
fn range_start(range: &[char]) -> (r: Option<u64>)
    ensures
        r == spec_range_start(Some(range@)),
{
    let prefix = str_chars("bytes ");
    proof {
        reveal_strlit("bytes ");
    }
    if range.len() < 6 {
        return None;
    }
    let mut i: usize = 0;
    while i < 6
        invariant
            i <= 6,
            6 <= range.len(),
            prefix@ == "bytes "@,
            prefix@.len() == 6,
            forall|k: int| 0 <= k < i ==> range@[k] == prefix@[k],
        decreases 6 - i,
    {
        if range[i] != prefix[i] {
            assert(range@.take(6)[i as int] != "bytes "@[i as int]);
            return None;
        }
        i = i + 1;
    }
    proof {
        reveal_strlit("bytes ");
    }
    assert(range@.take(6) =~= "bytes "@);
    let ghost rest = range@.skip(6);
    let mut k: usize = 6;
    while k < range.len() && range[k] != '-'
        invariant
            6 <= k <= range.len(),
            rest == range@.skip(6),
            spec_dash_index(rest, 0) == spec_dash_index(rest, k - 6),
        decreases range.len() - k,
    {
        k = k + 1;
    }
    let first = &range[6..k];
    assert(first@ =~= spec_first_segment(rest));
    parse_u64(first)
}

/// Decides from a response's status and headers whether resuming is safe. A
/// `416` keeps its old meaning: the file is already complete.
pub fn classify_response(
    status: u16,
    content_range: Option<&str>,
    content_length: Option<&str>,
    downloaded: u64,
    fallback_size: u64,
) -> (r: ResponseAction)
    ensures
        r == spec_classify_response(
            status,
            opt_chars(content_range),
            opt_chars(content_length),
            downloaded,
            fallback_size,
        ),
{
    let range: Option<Vec<char>> = match content_range {
        Some(s) => Some(str_chars(s)),
        None => None,
    };
    let reported: Option<u64> = match &range {
        Some(r) => {
            let seg = last_segment(r.as_slice());
            parse_u64(seg.as_slice())
        },
        None => match content_length {
            Some(l) => {
                let chars = str_chars(l);
                parse_u64(chars.as_slice())
            },
            None => None,
        },
    };
    let total = match reported {
        Some(v) => if v > 0 {
            v
        } else {
            fallback_size
        },
        None => fallback_size,
    };
    if downloaded > 0 && status == 200 {
        return ResponseAction::RestartFromBeginning { total };
    }
    if downloaded > 0 && status == 206 {
        let start = match &range {
            Some(r) => range_start(r.as_slice()),
            None => None,
        };
        let matches_offset = match start {
            Some(v) => v == downloaded,
            None => false,
        };
        if !matches_offset {
            return ResponseAction::InvalidRange;
        }
    }
    if status == 416 {
        return ResponseAction::AlreadyComplete;
    }
    if status == 403 || status == 404 || status == 410 {
        return ResponseAction::LinkExpired;
    }
    if 400 <= status && status < 600 {
        return ResponseAction::HttpError(status);
    }
    ResponseAction::Stream { total }
}

/// How many broken streams a transfer survives before it fails.
pub const MAX_STREAM_RETRIES: u32 = 2;

/// A broken stream is retried at most twice in all; the third one ends in a
/// reported error.
pub fn retry_or_fail<S: DownloadProgressSink>(
    stream_retries: &mut u32,
    progress_sink: &mut ReportingSink<S>,
    task_id: &str,
    message: &str,
) -> (r: StreamOutcome)
    ensures
        *old(stream_retries) < MAX_STREAM_RETRIES ==> r == StreamOutcome::Retry
            && *final(stream_retries) == *old(stream_retries) + 1
            && final(progress_sink).errors() == old(progress_sink).errors(),
        *old(stream_retries) >= MAX_STREAM_RETRIES ==> r == StreamOutcome::Failed
            && *final(stream_retries) == *old(stream_retries)
            && final(progress_sink).errors() == old(progress_sink).errors().push((task_id@, message@)),
{
    if *stream_retries < MAX_STREAM_RETRIES {
        *stream_retries = *stream_retries + 1;
        StreamOutcome::Retry
    } else {
        progress_sink.error(task_id, message);
        StreamOutcome::Failed
    }
}

/// The message reported when the file buffer cannot be flushed.
pub open spec fn flush_failure_message(error: Seq<char>) -> Seq<char> {
    "刷新文件缓冲区失败: "@ + error
}

/// A transfer is complete only once the buffer has been written out: takes the
/// result of flushing the writer, and reports a failed flush.
pub fn flush_completed<S: DownloadProgressSink>(
    flushed: Result<(), String>,
    progress_sink: &mut ReportingSink<S>,
    task_id: &str,
) -> (r: StreamOutcome)
    ensures
        match flushed {
            Ok(()) => r == StreamOutcome::Completed && final(progress_sink).errors() == old(progress_sink).errors(),
            Err(e) => r == StreamOutcome::Failed && final(progress_sink).errors() == old(progress_sink).errors().push(
                (task_id@, flush_failure_message(e@)),
            ),
        },
{
    match flushed {
        Ok(()) => StreamOutcome::Completed,
        Err(error) => {
            let mut message = String::from_str("刷新文件缓冲区失败: ");
            message.append(error.as_str());
            proof {
                reveal_strlit("刷新文件缓冲区失败: ");
            }
            progress_sink.error(task_id, message.as_str());
            StreamOutcome::Failed
        },
    }
}

/// What to do when the stream ends: a known size not yet reached is a broken
/// stream, anything else is the end of the file.
pub fn stream_ended_early(total: u64, downloaded: u64) -> (r: bool)
    ensures
        r == (total > 0 && downloaded < total),
{
    total > 0 && downloaded < total
}

/// Whether a known size has been reached after a chunk was written.
pub fn transfer_reached_total(total: u64, downloaded: u64) -> (r: bool)
    ensures
        r == (total > 0 && downloaded >= total),
{
    total > 0 && downloaded >= total
}

/// How many recent speed samples the reported speed averages.
pub const SPEED_WINDOW: usize = 5;

/// The sum of some speed samples.
pub open spec fn spec_sum(s: Seq<u64>) -> int
    decreases s.len(),
{
    if s.len() == 0 {
        0
    } else {
        spec_sum(s.drop_last()) + s.last()
    }
}

/// The most recent samples after one more is taken: the oldest is dropped once
/// there are more than five.
pub open spec fn spec_window_after(s: Seq<u64>, sample: u64) -> Seq<u64> {
    let pushed = s.push(sample);
    if pushed.len() > SPEED_WINDOW {
        pushed.drop_first()
    } else {
        pushed
    }
}

/// The recent speed samples of one transfer, at most five.
pub struct SpeedSamples {
    samples: Vec<u64>,
}

impl SpeedSamples {
    /// The samples, oldest first.
    pub closed spec fn view(&self) -> Seq<u64> {
        self.samples@
    }

    /// There are never more than five samples.
    pub closed spec fn wf(&self) -> bool {
        self.samples@.len() <= SPEED_WINDOW
    }

    /// No samples yet.
    pub fn new() -> (r: Self)
        ensures
            r.wf(),
            r.view() == Seq::<u64>::empty(),
    {
        SpeedSamples { samples: Vec::new() }
    }

    /// Takes an instantaneous speed and returns the average of the recent
    /// samples, rounded down.
    pub fn record(&mut self, speed: u64) -> (average: u64)
        requires
            old(self).wf(),
        ensures
            final(self).wf(),
            final(self).view() == spec_window_after(old(self).view(), speed),
            average as int == spec_sum(final(self).view()) / (final(self).view().len() as int),
    {
        self.samples.push(speed);
        if self.samples.len() > SPEED_WINDOW {
            let ghost pushed = self.samples@;
            self.samples.remove(0);
            assert(self.samples@ =~= pushed.drop_first());
        }
        let ghost w = self.samples@;
        let mut sum: u128 = 0;
        let mut i: usize = 0;
        while i < self.samples.len()
            invariant
                w == self.samples@,
                w.len() <= SPEED_WINDOW,
                1 <= w.len(),
                i <= w.len(),
                sum as int == spec_sum(w.take(i as int)),
                sum <= i * (u64::MAX as int),
            decreases w.len() - i,
        {
            assert(w.take(i + 1).drop_last() =~= w.take(i as int));
            sum = sum + self.samples[i] as u128;
            i = i + 1;
        }
        assert(w.take(i as int) =~= w);
        let n = self.samples.len() as u128;
        let avg = sum / n;
        assert(avg <= u64::MAX) by (nonlinear_arith)
            requires
                sum <= n * (u64::MAX as int),
                n >= 1,
                avg == sum / n,
        ;
        avg as u64
    }
}

} // verus!
