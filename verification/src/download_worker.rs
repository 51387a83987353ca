//! The decisions of a download task's loop: what to do next, and what each
//! outcome of the link, file, request and stream steps leads to. The runtime
//! performs the steps and hands their outcomes back.

use vstd::prelude::*;

use crate::download_config::DownloadConfig;
use crate::download_path::{resolve_download_path, spec_join, spec_saved_file_name, spec_uses_saf, TARGET_IS_ANDROID};
use crate::http_transfer::{ResponseAction, StreamOutcome};
use crate::task_context::SongInfo;
use crate::text::{push_decimal, spec_decimal, str_eq, string_from_chars};

verus! {

/// Where a task's file goes: the path fixed when the task was created, with the
/// SAF folder in Android SAF mode; without one, the path the settings give.
pub fn worker_target(save_path: &str, config: &DownloadConfig, song_info: &SongInfo, quality_filename: &str) -> (r: (
    bool,
    String,
    Option<String>,
))
    ensures
        save_path@.len() > 0 ==> ({
            let uri = match config.saf_folder_uri {
                Some(u) => Some(u@),
                None => None,
            };
            if config.download_dir@ == "saf://"@ && TARGET_IS_ANDROID && uri is Some {
                r.0 && r.1@ == save_path@ && r.2 is Some && r.2->0@ == uri->0
            } else {
                !r.0 && r.1@ == save_path@ && r.2 is None
            }
        }),
        save_path@.len() == 0 ==> ({
            let name = spec_saved_file_name(config.naming_template@, *song_info, quality_filename@);
            let uri = match config.saf_folder_uri {
                Some(u) => Some(u@),
                None => None,
            };
            if spec_uses_saf(config.download_dir@, uri) {
                r.0 && r.1@ == name && r.2 is Some && r.2->0@ == uri->0
            } else {
                !r.0 && r.1@ == spec_join(config.download_dir@, name) && r.2 is None
            }
        }),
{
    if save_path.unicode_len() > 0 {
        if str_eq(config.download_dir.as_str(), "saf://") && TARGET_IS_ANDROID && config.saf_folder_uri.is_some() {
            let uri = match &config.saf_folder_uri {
                Some(u) => Some(u.clone()),
                None => None,
            };
            (true, String::from_str(save_path), uri)
        } else {
            (false, String::from_str(save_path), None)
        }
    } else {
        let uri: Option<&str> = match &config.saf_folder_uri {
            Some(u) => Some(u.as_str()),
            None => None,
        };
        resolve_download_path(
            config.download_dir.as_str(),
            config.naming_template.as_str(),
            uri,
            song_info,
            quality_filename,
        )
    }
}

/// The next step of the loop.
#[derive(Debug, Clone, Copy, PartialEq, Eq, Structural)]
pub enum WorkerAction {
    /// Leave the loop.
    Stop,
    /// Wait until the task is resumed or canceled.
    WaitForResume,
    /// Ask for a download link.
    FetchLink,
    /// Open the file to continue at this offset.
    OpenFile { offset: u64 },
    /// Request the file from this offset.
    Request { offset: u64 },
}

/// What a response leads to.
#[derive(Debug)]
pub enum ResponseStep {
    /// The server ignored the range: reopen the file from zero, then stream the
    /// whole response.
    ReopenFromZeroThenStream { total: u64 },
    /// Stream the response onto the file.
    StreamBody { total: u64 },
    /// Report this error and stop.
    ReportError(String),
    /// Report the link expired at this offset and stop.
    LinkExpired { offset: u64 },
    /// The file is already complete: flush it, then finish.
    FlushThenComplete,
}

/// The state of a task's download loop.
#[derive(Debug)]
pub struct WorkerLoop {
    /// A link has been fetched since the last interruption.
    pub has_link: bool,
    /// The file is open for writing.
    pub has_file: bool,
    /// Bytes already in the file.
    pub downloaded: u64,
    /// Broken streams so far; kept across new links so that a stream that keeps
    /// breaking cannot retry forever.
    pub stream_retries: u32,
    /// The transfer completed.
    pub completed: bool,
    /// The loop is over.
    pub stopped: bool,
}

/// The message for a failed link request.
pub open spec fn link_failure_message(e: Seq<char>) -> Seq<char> {
    "获取下载链接失败: "@ + e
}

/// The message for a failed download request.
pub open spec fn request_failure_message(e: Seq<char>) -> Seq<char> {
    "下载请求失败: "@ + e
}

/// The message for an HTTP error status.
pub open spec fn http_error_message(status: u16) -> Seq<char> {
    "服务器错误: HTTP "@ + spec_decimal(status as nat)
}

impl WorkerLoop {
    /// A loop that resumes at the stored offset.
    pub fn new(downloaded_offset: u64) -> (r: Self)
        ensures
            !r.has_link && !r.has_file && !r.completed && !r.stopped,
            r.downloaded == downloaded_offset,
            r.stream_retries == 0,
    {
        WorkerLoop {
            has_link: false,
            has_file: false,
            downloaded: downloaded_offset,
            stream_retries: 0,
            completed: false,
            stopped: false,
        }
    }

    /// The next step: stop when over or canceled, wait while paused, then fetch
    /// a link, open the file, and request from the current offset.
    pub fn next_action(&self, canceled: bool, paused: bool) -> (r: WorkerAction)
        ensures
            r == (if self.stopped || canceled {
                WorkerAction::Stop
            } else if paused {
                WorkerAction::WaitForResume
            } else if !self.has_link {
                WorkerAction::FetchLink
            } else if !self.has_file {
                WorkerAction::OpenFile { offset: self.downloaded }
            } else {
                WorkerAction::Request { offset: self.downloaded }
            }),
    {
        if self.stopped || canceled {
            WorkerAction::Stop
        } else if paused {
            WorkerAction::WaitForResume
        } else if !self.has_link {
            WorkerAction::FetchLink
        } else if !self.has_file {
            WorkerAction::OpenFile { offset: self.downloaded }
        } else {
            WorkerAction::Request { offset: self.downloaded }
        }
    }

    /// Takes the outcome of the link requests: a link lets the loop go on, an
    /// error is reported and stops it. Returns the message to report.
    pub fn on_link(&mut self, result: Result<(), String>) -> (r: Option<String>)
        ensures
            match result {
                Ok(()) => r is None && final(self).has_link && final(self).stopped == old(self).stopped,
                Err(e) => r is Some && r->0@ == link_failure_message(e@) && final(self).stopped
                    && final(self).has_link == old(self).has_link,
            },
            final(self).has_file == old(self).has_file,
            final(self).downloaded == old(self).downloaded,
            final(self).stream_retries == old(self).stream_retries,
            final(self).completed == old(self).completed,
    {
        match result {
            Ok(()) => {
                self.has_link = true;
                None
            },
            Err(e) => {
                self.stopped = true;
                let mut m = String::from_str("获取下载链接失败: ");
                m.append(e.as_str());
                Some(m)
            },
        }
    }

    /// Takes the outcome of opening the file: the offset it really holds (a
    /// short file is cleared and restarts at zero), or a failure that stops.
    pub fn on_file_opened(&mut self, opened: Option<u64>)
        ensures
            match opened {
                Some(offset) => final(self).has_file && final(self).downloaded == offset
                    && final(self).stopped == old(self).stopped,
                None => final(self).stopped && final(self).has_file == old(self).has_file
                    && final(self).downloaded == old(self).downloaded,
            },
            final(self).has_link == old(self).has_link,
            final(self).stream_retries == old(self).stream_retries,
            final(self).completed == old(self).completed,
    {
        match opened {
            Some(offset) => {
                self.has_file = true;
                self.downloaded = offset;
            },
            None => {
                self.stopped = true;
            },
        }
    }

    /// A request that failed for good stops the loop; returns the message.
    pub fn on_request_failed(&mut self, error: &str) -> (r: String)
        ensures
            r@ == request_failure_message(error@),
            final(self).stopped,
            final(self).has_link == old(self).has_link,
            final(self).has_file == old(self).has_file,
            final(self).downloaded == old(self).downloaded,
            final(self).stream_retries == old(self).stream_retries,
            final(self).completed == old(self).completed,
    {
        self.stopped = true;
        let mut m = String::from_str("下载请求失败: ");
        m.append(error);
        m
    }

    /// Takes the decision about a response.
    pub fn on_response(&mut self, action: ResponseAction) -> (r: ResponseStep)
        ensures
            match action {
                ResponseAction::RestartFromBeginning { total } => r
                    == ResponseStep::ReopenFromZeroThenStream { total } && !final(self).has_file
                    && final(self).downloaded == 0 && final(self).stopped == old(self).stopped,
                ResponseAction::Stream { total } => r == ResponseStep::StreamBody { total }
                    && final(self).has_file == old(self).has_file && final(self).downloaded == old(self).downloaded && final(self).stopped == old(self).stopped,
                ResponseAction::InvalidRange => r matches ResponseStep::ReportError(m) && m@
                    == "续传响应范围不匹配，请重试"@ && final(self).stopped,
                ResponseAction::AlreadyComplete => r == ResponseStep::FlushThenComplete
                    && final(self).stopped == old(self).stopped,
                ResponseAction::LinkExpired => r == ResponseStep::LinkExpired {
                    offset: old(self).downloaded,
                } && final(self).stopped,
                ResponseAction::HttpError(status) => r matches ResponseStep::ReportError(m) && m@
                    == http_error_message(status) && final(self).stopped,
            },
            action !is RestartFromBeginning ==> final(self).has_file == old(self).has_file
                && final(self).downloaded == old(self).downloaded,
            final(self).has_link == old(self).has_link,
            final(self).stream_retries == old(self).stream_retries,
            final(self).completed == old(self).completed,
    {
        match action {
            ResponseAction::RestartFromBeginning { total } => {
                self.has_file = false;
                self.downloaded = 0;
                ResponseStep::ReopenFromZeroThenStream { total }
            },
            ResponseAction::Stream { total } => ResponseStep::StreamBody { total },
            ResponseAction::InvalidRange => {
                self.stopped = true;
                ResponseStep::ReportError(String::from_str("续传响应范围不匹配，请重试"))
            },
            ResponseAction::AlreadyComplete => ResponseStep::FlushThenComplete,
            ResponseAction::LinkExpired => {
                self.stopped = true;
                ResponseStep::LinkExpired { offset: self.downloaded }
            },
            ResponseAction::HttpError(status) => {
                self.stopped = true;
                let mut chars: Vec<char> = Vec::new();
                push_decimal(status as u64, &mut chars);
                let mut m = String::from_str("服务器错误: HTTP ");
                m.append(string_from_chars(chars.as_slice()).as_str());
                ResponseStep::ReportError(m)
            },
        }
    }

    /// Takes the result of flushing an already complete file: success completes
    /// the task, a failure is reported. Either way the loop stops.
    pub fn on_flush(&mut self, flushed: Result<(), String>) -> (r: Option<String>)
        ensures
            match flushed {
                Ok(()) => r is None && final(self).completed,
                Err(e) => r is Some && r->0@ == crate::http_transfer::flush_failure_message(e@)
                    && final(self).completed == old(self).completed,
            },
            final(self).stopped,
            final(self).has_link == old(self).has_link,
            final(self).has_file == old(self).has_file,
            final(self).downloaded == old(self).downloaded,
            final(self).stream_retries == old(self).stream_retries,
    {
        self.stopped = true;
        match flushed {
            Ok(()) => {
                self.completed = true;
                None
            },
            Err(e) => {
                let mut m = String::from_str("刷新文件缓冲区失败: ");
                m.append(e.as_str());
                Some(m)
            },
        }
    }

    /// Takes how a stream ended. A completed stream completes the task; a pause
    /// or a broken stream drops the link and the file, so that the next round
    /// fetches a fresh link and reopens at the current offset; cancellation and
    /// failure stop. A pause first waits; `resumed` says whether the task was
    /// resumed rather than canceled.
    pub fn on_stream_outcome(&mut self, outcome: StreamOutcome, resumed: bool)
        ensures
            outcome == StreamOutcome::Completed ==> final(self).completed && final(self).stopped,
            outcome == StreamOutcome::Retry || (outcome == StreamOutcome::Paused && resumed) ==> !final(self).has_link && !final(self).has_file && final(self).stopped == old(self).stopped
                && final(self).completed == old(self).completed,
            outcome == StreamOutcome::Canceled || outcome == StreamOutcome::Failed || (outcome
                == StreamOutcome::Paused && !resumed) ==> final(self).stopped && final(self).completed
                == old(self).completed,
            final(self).downloaded == old(self).downloaded,
            final(self).stream_retries == old(self).stream_retries,
    {
        match outcome {
            StreamOutcome::Completed => {
                self.completed = true;
                self.stopped = true;
            },
            StreamOutcome::Paused => {
                if resumed {
                    self.has_link = false;
                    self.has_file = false;
                } else {
                    self.stopped = true;
                }
            },
            StreamOutcome::Retry => {
                self.has_link = false;
                self.has_file = false;
            },
            StreamOutcome::Canceled | StreamOutcome::Failed => {
                self.stopped = true;
            },
        }
    }
}

/// The path shown for a completed download: the SAF file URI when there is one,
/// else the download path.
pub fn final_display_path(is_saf: bool, saf_file_uri: Option<&str>, download_dir: &str) -> (r: String)
    ensures
        r@ == (if is_saf && saf_file_uri is Some {
            saf_file_uri->0@
        } else {
            download_dir@
        }),
{
    if is_saf {
        match saf_file_uri {
            Some(u) => String::from_str(u),
            None => String::from_str(download_dir),
        }
    } else {
        String::from_str(download_dir)
    }
}

/// The file to delete when a canceled task asked for it: the SAF file URI if one
/// was recorded (without one nothing was created), else the download path.
pub fn file_to_delete(
    canceled: bool,
    delete_on_cancel: bool,
    is_saf: bool,
    saf_file_uri: Option<&str>,
    download_dir: &str,
) -> (r: Option<String>)
    ensures
        !(canceled && delete_on_cancel) ==> r is None,
        canceled && delete_on_cancel && is_saf ==> match saf_file_uri {
            Some(u) => r is Some && r->0@ == u@,
            None => r is None,
        },
        canceled && delete_on_cancel && !is_saf ==> r is Some && r->0@ == download_dir@,
{
    if !(canceled && delete_on_cancel) {
        return None;
    }
    if is_saf {
        match saf_file_uri {
            Some(u) => Some(String::from_str(u)),
            None => None,
        }
    } else {
        Some(String::from_str(download_dir))
    }
}

} // verus!
