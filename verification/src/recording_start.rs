//! One start of a recording, step by step: which question is put to the
//! file system next, when the native capture engine is called, and with
//! what.

use crate::error::{Error, ErrorKind};
use crate::output_path::{format_in, format_of_name};
use crate::resolver::{Probe, Resolution, Resolver};
use crate::screen_capture::{
    capture_request, or_default, request_fault, CaptureRequest, RecordingState,
};
use crate::text::{parse_u32, parsed_u32};
use vstd::prelude::*;
use vstd::string::*;

verus! {

/// What is to be done next for a start.
#[derive(Debug, PartialEq, Eq)]
pub enum StartAction {
    /// Put this question of the path resolver to the file system, and
    /// answer.
    Probe(Probe),
    /// Hand this request to the native capture engine, and commit its
    /// answer to the recording session.
    Capture(CaptureRequest),
    /// Give up with this failure.
    Fail(Error),
}

/// One start of a recording on its way to the native capture engine.
#[derive(Debug, PartialEq, Eq)]
pub struct RecordingStart {
    pub screen_id: String,
    pub include_audio: bool,
    pub include_webcam: bool,
    pub pip_shape: Option<i32>,
    pub pip_x: Option<u32>,
    pub pip_y: Option<u32>,
    pub pip_size: Option<u32>,
    pub resolver: Resolver,
}

impl RecordingStart {
    /// Whether the resolution of the output path is well formed.
    pub open spec fn wf(&self) -> bool {
        self.resolver.wf()
    }

    /// Whether `request` is what this start asks of the native engine for a
    /// recording to `destination`.
    pub open spec fn asks(&self, request: CaptureRequest, destination: Seq<char>) -> bool {
        &&& Some(request.display_id) == parsed_u32(self.screen_id@)
        &&& request.include_audio == self.include_audio
        &&& request.include_webcam == self.include_webcam
        &&& request.pip_shape == or_default(self.pip_shape, 0)
        &&& request.pip_x == or_default(self.pip_x, 800_000)
        &&& request.pip_y == or_default(self.pip_y, 800_000)
        &&& request.pip_size == or_default(self.pip_size, 200_000)
        &&& request.output_path@ == destination
    }

    /// Begins a start that records the given screen to the output that was
    /// asked for as `requested_output`, in the format that its name asks
    /// for. It is turned away while a recording is in progress, and with a
    /// screen identifier that names no display; in that order, and before
    /// anything is asked of the file system. An output that names no
    /// directory goes to `default_directory`.
    pub fn begin(
        state: &RecordingState,
        screen_id: &str,
        include_audio: bool,
        include_webcam: bool,
        pip_shape: Option<i32>,
        pip_x: Option<u32>,
        pip_y: Option<u32>,
        pip_size: Option<u32>,
        requested_output: &str,
        default_directory: &str,
    ) -> (r: Result<RecordingStart, Error>)
        ensures
            r is Ok <==> !state.is_recording && parsed_u32(screen_id@) is Some,
            match r {
                Ok(start) => {
                    &&& start.wf()
                    &&& start.screen_id@ == screen_id@
                    &&& start.include_audio == include_audio
                    &&& start.include_webcam == include_webcam
                    &&& start.pip_shape == pip_shape
                    &&& start.pip_x == pip_x
                    &&& start.pip_y == pip_y
                    &&& start.pip_size == pip_size
                    &&& start.resolver@ == Resolution::start(
                        requested_output@,
                        format_in(requested_output@),
                        default_directory@,
                    )
                },
                Err(e) => e.detail@.len() == 0 && e.kind == if state.is_recording {
                    ErrorKind::AlreadyRecording
                } else {
                    ErrorKind::InvalidScreenId
                },
            },
    {
        match state.admit_start() {
            Ok(_) => {},
            Err(e) => {
                return Err(e);
            },
        }
        if parse_u32(screen_id).is_none() {
            return Err(Error::new(ErrorKind::InvalidScreenId));
        }
        let format = format_of_name(requested_output);
        Ok(
            RecordingStart {
                screen_id: String::from_str(screen_id),
                include_audio,
                include_webcam,
                pip_shape,
                pip_x,
                pip_y,
                pip_size,
                resolver: Resolver::new(requested_output, format.as_str(), default_directory),
            },
        )
    }

    /// What is to be done next: a question to answer, the call of the
    /// native capture engine with the resolved path, or giving up, with
    /// the failure of the resolution or because the request cannot be made.
    pub fn action(&self) -> (r: StartAction)
        ensures
            match r {
                StartAction::Probe(probe) => self.resolver@.probe() == Some(
                    (probe.kind, probe.path@),
                ),
                StartAction::Capture(request) => self.resolver@.outcome() is Some
                    && self.resolver@.outcome()->0 is Ok && self.asks(
                    request,
                    self.resolver@.outcome()->0->Ok_0,
                ) && request_fault(self.screen_id@, request.output_path@) is None,
                StartAction::Fail(e) => match self.resolver@.outcome() {
                    Some(Ok(destination)) => request_fault(self.screen_id@, destination) == Some(
                        e.kind,
                    ) && e.detail@.len() == 0,
                    Some(Err(kind)) => e.kind == kind && e.detail@ == if kind
                        == ErrorKind::PathExhausted {
                        Seq::<char>::empty()
                    } else {
                        self.resolver.directory@
                    },
                    None => false,
                },
            },
    {
        match self.resolver.outcome() {
            None => match self.resolver.pending() {
                Some(probe) => StartAction::Probe(probe),
                None => unreached(),
            },
            Some(Err(e)) => StartAction::Fail(e),
            Some(Ok(destination)) => match capture_request(
                self.screen_id.as_str(),
                self.include_audio,
                self.include_webcam,
                self.pip_shape,
                self.pip_x,
                self.pip_y,
                self.pip_size,
                destination.as_str(),
            ) {
                Ok(request) => StartAction::Capture(request),
                Err(e) => StartAction::Fail(e),
            },
        }
    }

    /// Takes the answer to the pending question and moves on.
    pub fn answer(&mut self, yes: bool)
        requires
            old(self).wf(),
        ensures
            final(self).wf(),
            final(self).resolver@ == old(self).resolver@.step(yes),
            final(self).screen_id == old(self).screen_id,
            final(self).include_audio == old(self).include_audio,
            final(self).include_webcam == old(self).include_webcam,
            final(self).pip_shape == old(self).pip_shape,
            final(self).pip_x == old(self).pip_x,
            final(self).pip_y == old(self).pip_y,
            final(self).pip_size == old(self).pip_size,
    {
        self.resolver.reply(yes);
    }
}

} // verus!
