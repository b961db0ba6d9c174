//! Rules for the media files and working directories around a recording:
//! which files count as video, and how a working directory is named.

use crate::error::{Error, ErrorKind};
use crate::text::{decimal, from_chars, push_decimal, same_text};
use vstd::prelude::*;
use vstd::string::*;

verus! {

/// The text that `str::to_lowercase` makes of `s`.
pub uninterp spec fn lowercased(s: Seq<char>) -> Seq<char>;

/// `str::to_lowercase`: the text in lower case, by the rules of Unicode.
#[verifier::external_body]
fn lowercase(s: &str) -> (r: String)
    ensures
        r@ == lowercased(s@),
{
    s.to_lowercase()
}

/// Whether a file with this extension, written in lower case, is listed
/// among the media of a directory.
pub open spec fn is_listed(extension: Seq<char>) -> bool {
    extension == "mp4"@ || extension == "mov"@ || extension == "webm"@ || extension == "avi"@
}

/// Whether a file with this extension, written in lower case, is video
/// that can be worked on.
pub open spec fn is_video(extension: Seq<char>) -> bool {
    is_listed(extension) || extension == "mkv"@
}

/// Tells whether a file with this extension, written in lower case, is
/// listed among the media of a directory.
pub fn is_listed_extension(extension: &str) -> (b: bool)
    ensures
        b == is_listed(extension@),
{
    same_text(extension, "mp4") || same_text(extension, "mov") || same_text(extension, "webm")
        || same_text(extension, "avi")
}

/// Tells whether a file with this extension, written in lower case, is
/// video that can be worked on.
pub fn is_video_extension(extension: &str) -> (b: bool)
    ensures
        b == is_video(extension@),
{
    is_listed_extension(extension) || same_text(extension, "mkv")
}

/// Tells whether a file with this extension, however it is cased, is
/// listed among the media of a directory.
pub fn is_media_file(extension: &str) -> (b: bool)
    ensures
        b == is_listed(lowercased(extension@)),
{
    let lower = lowercase(extension);
    is_listed_extension(lower.as_str())
}

/// Says whether the file at `file_path` is video that can be worked on,
/// going by its extension, however it is cased. `exists` is whether the
/// file is there, `extension` what stands behind the last dot of its name.
pub fn validate_media_file(file_path: &str, exists: bool, extension: Option<&str>) -> (r: Result<
    bool,
    Error,
>)
    ensures
        match r {
            Ok(b) => exists && extension is Some && b == is_video(lowercased(extension->0@)),
            Err(e) => if !exists {
                e.kind == ErrorKind::FileNotFound && e.detail@ == file_path@
            } else {
                extension is None && e.kind == ErrorKind::InvalidExtension && e.detail@.len() == 0
            },
        },
{
    if !exists {
        return Err(Error::with_detail(ErrorKind::FileNotFound, file_path));
    }
    match extension {
        Some(e) => {
            let lower = lowercase(e);
            Ok(is_video_extension(lower.as_str()))
        },
        None => Err(Error::new(ErrorKind::InvalidExtension)),
    }
}

/// `n` written in decimal, with a minus sign where it is negative.
pub open spec fn signed_decimal(n: int) -> Seq<char> {
    if n < 0 {
        seq!['-'] + decimal((-n) as nat)
    } else {
        decimal(n as nat)
    }
}

/// The name of the working directory of a recording that began at the
/// given time, in seconds since the epoch.
pub open spec fn working_directory(timestamp: i64) -> Seq<char> {
    "recording_"@ + signed_decimal(timestamp as int)
}

/// The name of the working directory of a recording that began at the
/// given time, in seconds since the epoch.
pub fn temp_directory_name(timestamp: i64) -> (r: String)
    ensures
        r@ == working_directory(timestamp),
{
    let mut digits: Vec<char> = Vec::new();
    if timestamp < 0 {
        digits.push('-');
        let magnitude: u64 = (-(timestamp + 1)) as u64 + 1;
        push_decimal(magnitude, &mut digits);
    } else {
        push_decimal(timestamp as u64, &mut digits);
    }
    assert(digits@ =~= signed_decimal(timestamp as int));
    let mut name = String::from_str("recording_");
    name.append(from_chars(&digits).as_str());
    name
}

/// What can be recorded, by name.
pub open spec fn recording_devices() -> Seq<Seq<char>> {
    seq!["Entire Screen"@, "Window"@, "Browser Tab"@]
}

/// The kinds of thing that can be recorded, by name.
pub fn get_recording_devices() -> (r: Vec<String>)
    ensures
        r@.len() == 3,
        forall|i: int| 0 <= i < 3 ==> (#[trigger] r@[i])@ == recording_devices()[i],
{
    let mut r: Vec<String> = Vec::new();
    r.push(String::from_str("Entire Screen"));
    r.push(String::from_str("Window"));
    r.push(String::from_str("Browser Tab"));
    r
}

} // verus!
