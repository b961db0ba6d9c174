//! The failures that the managers report, each with its class and a message
//! fit to show to a user.

use vstd::prelude::*;
use vstd::string::*;

verus! {

/// What went wrong.
#[derive(Clone, Copy, Debug, PartialEq, Eq, Structural)]
pub enum ErrorKind {
    /// The screen identifier does not name a display.
    InvalidScreenId,
    /// The output path cannot be handed to the native engine.
    InvalidOutputPath,
    /// No clip of the submission shows the screen.
    NoScreenClip,
    /// The file has no extension to tell its format by.
    InvalidExtension,
    /// A recording is already in progress.
    AlreadyRecording,
    /// No recording is in progress.
    NotRecording,
    /// An export is already running.
    AlreadyRunning,
    /// No export is running.
    NotRunning,
    /// The directory of an absolute destination does not exist.
    InvalidDestination,
    /// The default save directory could not be had.
    IoError,
    /// Every name that was tried for the output is taken.
    PathExhausted,
    /// The destination directory refuses new files.
    NotWritable,
    /// The file of the screen clip does not exist.
    SourceNotFound,
    /// The file to look at does not exist.
    FileNotFound,
    /// The displays could not be listed.
    EnumerationFailed,
    /// The native engine refused to start capturing.
    NativeStartFailed,
    /// The native engine failed to stop capturing.
    NativeStopFailed,
    /// The native engine refused the export.
    NativeExportFailed,
    /// The native engine reported a failed export when asked for progress.
    NativePollFailed,
    /// The native engine failed to cancel the export.
    NativeCancelFailed,
    /// The native engine did not answer in time.
    NativeTimeout,
    /// The platform has no native engine.
    Unsupported,
}

/// The four classes of failure.
#[derive(Clone, Copy, Debug, PartialEq, Eq, Structural)]
pub enum ErrorClass {
    /// The caller handed over something unusable.
    InvalidInput,
    /// The operation does not fit the manager's present state.
    StateConflict,
    /// The file system stands in the way.
    ResourceError,
    /// The native engine failed.
    NativeFailure,
}

/// A failure: its kind, and the path or native message that belongs to it
/// (empty where the kind says it all).
#[derive(Clone, Debug, PartialEq, Eq)]
pub struct Error {
    pub kind: ErrorKind,
    pub detail: String,
}

/// The class that a kind of failure belongs to.
pub open spec fn class_of(kind: ErrorKind) -> ErrorClass {
    match kind {
        ErrorKind::InvalidScreenId
        | ErrorKind::InvalidOutputPath
        | ErrorKind::NoScreenClip
        | ErrorKind::InvalidExtension => ErrorClass::InvalidInput,
        ErrorKind::AlreadyRecording
        | ErrorKind::NotRecording
        | ErrorKind::AlreadyRunning
        | ErrorKind::NotRunning => ErrorClass::StateConflict,
        ErrorKind::InvalidDestination
        | ErrorKind::IoError
        | ErrorKind::PathExhausted
        | ErrorKind::NotWritable
        | ErrorKind::SourceNotFound
        | ErrorKind::FileNotFound => ErrorClass::ResourceError,
        ErrorKind::EnumerationFailed
        | ErrorKind::NativeStartFailed
        | ErrorKind::NativeStopFailed
        | ErrorKind::NativeExportFailed
        | ErrorKind::NativePollFailed
        | ErrorKind::NativeCancelFailed
        | ErrorKind::NativeTimeout
        | ErrorKind::Unsupported => ErrorClass::NativeFailure,
    }
}

/// The words that introduce a failure of the given kind.
pub open spec fn headline(kind: ErrorKind) -> Seq<char> {
    match kind {
        ErrorKind::InvalidScreenId => "Invalid screen ID"@,
        ErrorKind::InvalidOutputPath => "Invalid output path"@,
        ErrorKind::NoScreenClip =>
            "No screen recording found. At least one screen recording is required for export."@,
        ErrorKind::AlreadyRecording => "Recording already in progress"@,
        ErrorKind::NotRecording => "No recording in progress"@,
        ErrorKind::AlreadyRunning => "Export already in progress"@,
        ErrorKind::NotRunning => "No export in progress"@,
        ErrorKind::InvalidDestination => "Output directory does not exist"@,
        ErrorKind::IoError => "Failed to create the save directory"@,
        ErrorKind::PathExhausted =>
            "Could not find available filename after 1000 attempts. Please delete existing files."@,
        ErrorKind::NotWritable => "Output directory is not writable"@,
        ErrorKind::SourceNotFound => "Screen recording file not found"@,
        ErrorKind::FileNotFound => "File does not exist"@,
        ErrorKind::InvalidExtension => "Invalid file extension"@,
        ErrorKind::EnumerationFailed => "Failed to get display list"@,
        ErrorKind::NativeStartFailed => "Failed to start recording"@,
        ErrorKind::NativeStopFailed => "Failed to stop recording"@,
        ErrorKind::NativeExportFailed => "Failed to export video"@,
        ErrorKind::NativePollFailed => "Export failed"@,
        ErrorKind::NativeCancelFailed => "Failed to cancel export"@,
        ErrorKind::NativeTimeout => "The native engine did not answer in time"@,
        ErrorKind::Unsupported => "Not available on this platform"@,
    }
}

/// The message of a failure: the headline of its kind, then a colon and the
/// detail where there is one.
pub open spec fn message_text(kind: ErrorKind, detail: Seq<char>) -> Seq<char> {
    if detail.len() == 0 {
        headline(kind)
    } else {
        headline(kind) + ": "@ + detail
    }
}

impl ErrorKind {
    /// The class of this kind of failure.
    pub fn class(self) -> (c: ErrorClass)
        ensures
            c == class_of(self),
    {
        match self {
            ErrorKind::InvalidScreenId
            | ErrorKind::InvalidOutputPath
            | ErrorKind::NoScreenClip
            | ErrorKind::InvalidExtension => ErrorClass::InvalidInput,
            ErrorKind::AlreadyRecording
            | ErrorKind::NotRecording
            | ErrorKind::AlreadyRunning
            | ErrorKind::NotRunning => ErrorClass::StateConflict,
            ErrorKind::InvalidDestination
            | ErrorKind::IoError
            | ErrorKind::PathExhausted
            | ErrorKind::NotWritable
            | ErrorKind::SourceNotFound
            | ErrorKind::FileNotFound => ErrorClass::ResourceError,
            _ => ErrorClass::NativeFailure,
        }
    }

    /// The words that introduce a failure of this kind.
    pub fn headline(self) -> (s: &'static str)
        ensures
            s@ == headline(self),
    {
        match self {
            ErrorKind::InvalidScreenId => "Invalid screen ID",
            ErrorKind::InvalidOutputPath => "Invalid output path",
            ErrorKind::NoScreenClip =>
                "No screen recording found. At least one screen recording is required for export.",
            ErrorKind::AlreadyRecording => "Recording already in progress",
            ErrorKind::NotRecording => "No recording in progress",
            ErrorKind::AlreadyRunning => "Export already in progress",
            ErrorKind::NotRunning => "No export in progress",
            ErrorKind::InvalidDestination => "Output directory does not exist",
            ErrorKind::IoError => "Failed to create the save directory",
            ErrorKind::PathExhausted =>
                "Could not find available filename after 1000 attempts. Please delete existing files.",
            ErrorKind::NotWritable => "Output directory is not writable",
            ErrorKind::SourceNotFound => "Screen recording file not found",
            ErrorKind::FileNotFound => "File does not exist",
            ErrorKind::InvalidExtension => "Invalid file extension",
            ErrorKind::EnumerationFailed => "Failed to get display list",
            ErrorKind::NativeStartFailed => "Failed to start recording",
            ErrorKind::NativeStopFailed => "Failed to stop recording",
            ErrorKind::NativeExportFailed => "Failed to export video",
            ErrorKind::NativePollFailed => "Export failed",
            ErrorKind::NativeCancelFailed => "Failed to cancel export",
            ErrorKind::NativeTimeout => "The native engine did not answer in time",
            ErrorKind::Unsupported => "Not available on this platform",
        }
    }
}

impl Error {
    /// A failure of the given kind that needs no detail.
    pub fn new(kind: ErrorKind) -> (e: Error)
        ensures
            e.kind == kind,
            e.detail@.len() == 0,
    {
        Error { kind, detail: String::new() }
    }

    /// A failure of the given kind about the given path or native message.
    pub fn with_detail(kind: ErrorKind, detail: &str) -> (e: Error)
        ensures
            e.kind == kind,
            e.detail@ == detail@,
    {
        Error { kind, detail: String::from_str(detail) }
    }

    /// The class of this failure.
    pub fn class(&self) -> (c: ErrorClass)
        ensures
            c == class_of(self.kind),
    {
        self.kind.class()
    }

    /// The message to show for this failure.
    pub fn message(&self) -> (s: String)
        ensures
            s@ == message_text(self.kind, self.detail@),
    {
        let mut s = String::from_str(self.kind.headline());
        if self.detail.as_str().unicode_len() > 0 {
            s.append(": ");
            s.append(self.detail.as_str());
        }
        s
    }
}

} // verus!
