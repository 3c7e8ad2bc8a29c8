//! Streaming downloads: what a download asks for, a flag to cancel it, and
//! the decisions taken while it runs (where to resume, what to do with the
//! server's answer, and when to report progress).
//!
//! The caller performs the requests and the file writes, and hands the
//! outcome of each step to the functions here.

use std::sync::atomic::{AtomicBool, Ordering};
use std::sync::Arc;

use vstd::prelude::*;

use crate::text::{decimal, decimal_chars, extend_chars, from_chars, to_chars};

verus! {

/// Shared cancellation flag for a background download. Clones share the
/// same flag.
#[derive(Clone)]
pub struct CancelFlag(Arc<AtomicBool>);

impl CancelFlag {
    /// A flag that is not raised.
    pub fn new() -> Self {
        CancelFlag(Arc::new(AtomicBool::new(false)))
    }

    /// Raises the flag, for every clone.
    pub fn cancel(&self) {
        self.0.store(true, Ordering::Relaxed);
    }

    /// Whether some clone has raised the flag.
    pub fn is_cancelled(&self) -> bool {
        self.0.load(Ordering::Relaxed)
    }
}

/// What to download and how.
pub struct DownloadRequest {
    pub url: String,
    pub dest: String,
    /// Extra headers (such as `Authorization` for HuggingFace).
    pub headers: Vec<(String, String)>,
    /// Continue a partly downloaded file with a `Range` request.
    pub resume: bool,
    /// Cancellation: the partial file stays for a later resume.
    pub cancel: CancelFlag,
}

/// Identifies this application to the servers it talks to.
pub open spec fn user_agent() -> Seq<char> {
    "llamacpp-manager"@
}

pub open spec fn headers_view(h: Seq<(String, String)>) -> Seq<(Seq<char>, Seq<char>)> {
    h.map_values(|p: (String, String)| (p.0@, p.1@))
}

/// Size of one read from the response body.
pub const DOWNLOAD_CHUNK: usize = 65536;

/// Progress is reported at most once per this many bytes (one MiB).
pub const PROGRESS_STEP: u64 = 1048576;

/// Byte offset a download starts at: the size of the partial file when
/// resuming (0 when there is none), else 0.
pub open spec fn resume_offset_spec(resume: bool, existing_len: Option<u64>) -> u64 {
    if resume {
        match existing_len {
            Some(n) => n,
            None => 0,
        }
    } else {
        0
    }
}

/// Byte offset a download starts at.
pub fn resume_offset(resume: bool, existing_len: Option<u64>) -> (r: u64)
    ensures
        r == resume_offset_spec(resume, existing_len),
{
    if resume {
        match existing_len {
            Some(n) => n,
            None => 0,
        }
    } else {
        0
    }
}

/// The value of a `Range` header asking for everything from `start` on.
pub open spec fn range_value(start: u64) -> Seq<char> {
    "bytes="@ + decimal(start as nat) + "-"@
}

/// Headers of the GET request: the user agent, `Accept: */*`, the
/// request's own headers in order, and a `Range` header when the download
/// resumes at a non-zero offset.
pub open spec fn get_headers_spec(extra: Seq<(Seq<char>, Seq<char>)>, start: u64) -> Seq<
    (Seq<char>, Seq<char>),
> {
    let base = seq![("User-Agent"@, user_agent()), ("Accept"@, "*/*"@)] + extra;
    if start > 0 {
        base.push(("Range"@, range_value(start)))
    } else {
        base
    }
}

/// Headers of the GET request for `request` starting at `start`.
pub fn get_headers(request: &DownloadRequest, start: u64) -> (r: Vec<(String, String)>)
    ensures
        headers_view(r@) == get_headers_spec(headers_view(request.headers@), start),
{
    let mut out: Vec<(String, String)> = Vec::new();
    out.push((from_chars(&to_chars("User-Agent")), from_chars(&to_chars("llamacpp-manager"))));
    out.push((from_chars(&to_chars("Accept")), from_chars(&to_chars("*/*"))));
    let ghost base = headers_view(out@);
    let ghost extra = headers_view(request.headers@);
    assert(base =~= seq![("User-Agent"@, user_agent()), ("Accept"@, "*/*"@)]);
    let mut i: usize = 0;
    while i < request.headers.len()
        invariant
            i <= request.headers@.len(),
            extra == headers_view(request.headers@),
            headers_view(out@) == base + extra.take(i as int),
        decreases request.headers@.len() - i,
    {
        let (k, v) = &request.headers[i];
        let pair = (from_chars(&to_chars(k.as_str())), from_chars(&to_chars(v.as_str())));
        let ghost before = headers_view(out@);
        out.push(pair);
        assert(headers_view(out@) =~= before.push(extra[i as int]));
        assert(extra.take(i + 1) =~= extra.take(i as int).push(extra[i as int]));
        i += 1;
    }
    assert(extra.take(request.headers@.len() as int) =~= extra);
    if start > 0 {
        let mut value = to_chars("bytes=");
        extend_chars(&mut value, &decimal_chars(start));
        extend_chars(&mut value, &to_chars("-"));
        let ghost before = headers_view(out@);
        out.push((from_chars(&to_chars("Range")), from_chars(&value)));
        assert(headers_view(out@) =~= before.push(("Range"@, range_value(start))));
    }
    out
}

/// What to do when the server refused the range of a resumed download
/// (status 416).
#[derive(Clone, Copy, Debug, PartialEq, Eq)]
pub enum RangeRefused {
    /// The partial file already has the whole remote size: report it and
    /// stop.
    Complete,
    /// The partial file is broken: delete it and download from scratch.
    StartOver,
}

/// The decision after a refused range, from the remote size that a HEAD
/// request reported: complete exactly when the partial file is that long.
pub fn range_refused(start: u64, remote_size: u64) -> (r: RangeRefused)
    ensures
        r == (if remote_size == start {
            RangeRefused::Complete
        } else {
            RangeRefused::StartOver
        }),
{
    if remote_size == start {
        RangeRefused::Complete
    } else {
        RangeRefused::StartOver
    }
}

/// Where the body of a response starts in the file: a resumed download
/// continues at `start` only when the server answered 206 (partial
/// content); otherwise the server ignored the range and the file is
/// written from the beginning.
pub open spec fn body_offset_spec(start: u64, status: u16) -> u64 {
    if start > 0 && status != 206 {
        0
    } else {
        start
    }
}

/// Total size of the file once the body is written: the offset plus the
/// announced body length (0 when none was announced).
pub open spec fn total_size_spec(offset: u64, content_length: Option<u64>) -> nat {
    let len: nat = match content_length {
        Some(n) => n as nat,
        None => 0,
    };
    offset as nat + len
}

/// Progress of a running download: bytes in the file so far, the bytes at
/// the last report, and the expected total (0 when unknown).
#[derive(Clone, Copy, Debug, PartialEq, Eq)]
pub struct DownloadProgress {
    pub downloaded: u64,
    pub last_reported: u64,
    pub total: u64,
}

/// Nothing more than one step goes unreported.
pub open spec fn progress_ok(p: DownloadProgress) -> bool {
    p.last_reported <= p.downloaded && p.downloaded - p.last_reported < PROGRESS_STEP
}

impl DownloadProgress {
    /// Progress at the start of a response body: the body starts at
    /// [`body_offset_spec`], and the total is the offset plus the
    /// announced length.
    pub fn begin(start: u64, status: u16, content_length: Option<u64>) -> (r: Self)
        requires
            total_size_spec(body_offset_spec(start, status), content_length) <= u64::MAX,
        ensures
            r.downloaded == body_offset_spec(start, status),
            r.last_reported == r.downloaded,
            r.total == total_size_spec(body_offset_spec(start, status), content_length),
            progress_ok(r),
    {
        let offset = if start > 0 && status != 206 {
            0
        } else {
            start
        };
        let len = match content_length {
            Some(n) => n,
            None => 0,
        };
        DownloadProgress { downloaded: offset, last_reported: offset, total: offset + len }
    }

    /// `read` more bytes were written. Returns the report to show, if one
    /// is due: a report is due once a full step has been written since the
    /// last one, and gives the bytes so far and the total.
    pub fn on_chunk(&mut self, read: u64) -> (report: Option<(u64, u64)>)
        requires
            old(self).downloaded + read <= u64::MAX,
            old(self).last_reported <= old(self).downloaded,
        ensures
            final(self).downloaded == old(self).downloaded + read,
            final(self).total == old(self).total,
            final(self).downloaded - old(self).last_reported >= PROGRESS_STEP ==> report == Some(
                (final(self).downloaded, final(self).total),
            ) && final(self).last_reported == final(self).downloaded,
            final(self).downloaded - old(self).last_reported < PROGRESS_STEP ==> report is None
                && final(self).last_reported == old(self).last_reported,
            progress_ok(*final(self)),
    {
        self.downloaded = self.downloaded + read;
        if self.downloaded - self.last_reported >= PROGRESS_STEP {
            self.last_reported = self.downloaded;
            Some((self.downloaded, self.total))
        } else {
            None
        }
    }

    /// The final report once the body is complete: the bytes written, and
    /// the total, or the bytes written when no total was known.
    pub fn finish(&self) -> (r: (u64, u64))
        ensures
            r == (self.downloaded, if self.total > 0 {
                self.total
            } else {
                self.downloaded
            }),
    {
        (self.downloaded, if self.total > 0 {
            self.total
        } else {
            self.downloaded
        })
    }
}

} // verus!
