//! Control plane of a screen recorder.
//!
//! The recorder drives a native engine that captures the screen and encodes
//! video. This library holds what surrounds that engine: the one recording
//! session and the one export job with their rules of state, the resolution
//! of output paths, the choice and order of the clips of an export, and the
//! marshalling of what crosses the boundary to the engine.
//!
//! Nothing here touches the file system or the engine. Where an operation
//! needs either, it is written as a machine that says what to ask or to do
//! next and takes the answer: see `resolver`, `recording_start` and
//! `submission`. Whoever drives a machine holds no lock of a session or a
//! job while doing so: a start or a submission is admitted first, and
//! committed, with the state looked at again, when the engine has answered.
//!
//! Times are counted in microseconds, and fractions (progress, the place
//! and size of the picture in the picture) in millionths.

pub mod error;
pub mod export_job;
pub mod media;
pub mod native;
pub mod output_path;
pub mod recording_start;
pub mod resolver;
pub mod screen_capture;
pub mod submission;
pub mod text;
pub mod video_processing;
