//! Errors that the library's decisions can produce.
use vstd::prelude::*;

use std::time::Duration;

use crate::format::FormatType;

verus! {

/// An error raised by a decision of the library.
#[derive(Debug, Clone)]
pub enum Error {
    /// A format that was asked for its URL has none.
    FormatNoUrl { video_id: String, format_id: String },
    /// No format of the requested type exists for a video.
    FormatNotAvailable { video_id: String, format_type: FormatType, available_formats: Vec<String> },
    /// An operation did not finish within its time limit.
    Timeout { operation: String, duration: Duration },
    /// A command exited with a non-zero code.
    CommandFailed { command: String, exit_code: i32, stderr: String },
    /// A live recording was requested for a video that is not live.
    LiveUnavailable { url: String, live_status: String, reason: String },
    /// A live recording could not be set up.
    LiveRecording { url: String, reason: String },
}

} // verus!
