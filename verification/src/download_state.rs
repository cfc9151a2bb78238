//! Progress records sent to the user interface while something is downloaded or
//! installed.

use vstd::prelude::*;

verus! {

/// Where a download or installation stands.
#[derive(Debug, Clone, Copy, PartialEq, Eq, Structural)]
pub enum DownloadStatus {
    Idle,
    Downloading,
    Complete,
    Error,
}

/// A progress report: status, percentage, message and an optional log excerpt.
pub struct DownloadProgress {
    pub status: DownloadStatus,
    pub progress: u8,
    pub message: String,
    pub log: Option<String>,
}

/// The state of one file download.
pub struct DownloadState {
    pub model_id: String,
    pub filename: String,
    pub file_size: u64,
    pub downloaded: u64,
    pub progress: u8,
    pub status: String,
}

/// How to install the model server on a platform.
pub struct InstallationInformation {
    pub platform: String,
    pub command: String,
    pub estimated_time: String,
}

/// One line of installer output shown in the terminal panel: its text, the stream
/// or kind it belongs to (`stdout`, `stderr`, `info`, `success`, `error`), and
/// whether it is a progress line.
pub struct TerminalLine {
    pub line: String,
    pub stream: String,
    pub is_progress: bool,
}

/// A terminal line that is not a progress line.
pub fn terminal_line(line: &str, stream: &str) -> (r: TerminalLine)
    ensures
        r.line@ == line@,
        r.stream@ == stream@,
        !r.is_progress,
{
    TerminalLine { line: String::from_str(line), stream: String::from_str(stream), is_progress: false }
}

/// The message shown for a report: the given one, or `Processing...` when it is empty.
pub open spec fn progress_message(message: Seq<char>) -> Seq<char> {
    if message.len() == 0 {
        "Processing..."@
    } else {
        message
    }
}

/// A progress report for the download panel; an empty message is replaced by
/// `Processing...`.
pub fn download_progress(status: DownloadStatus, progress: u8, message: String, log: Option<&str>) -> (r:
    DownloadProgress)
    ensures
        r.status == status,
        r.progress == progress,
        r.message@ == progress_message(message@),
        match log {
            Some(l) => r.log matches Some(x) && x@ == l@,
            None => r.log is None,
        },
{
    let message = if message.as_str().unicode_len() == 0 {
        String::from_str("Processing...")
    } else {
        message
    };
    let log = match log {
        Some(l) => Some(String::from_str(l)),
        None => None,
    };
    DownloadProgress { status, progress, message, log }
}

} // verus!
