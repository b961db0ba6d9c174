//! One submission of an export, step by step: which question is put to the
//! file system next, when the native encoder is called, and with what.

use crate::error::{Error, ErrorKind};
use crate::export_job::ExportJob;
use crate::resolver::{lemma_reply_makes_progress, Probe, Resolution, Resolver, Stage, MAX_ATTEMPTS};
use crate::video_processing::{
    has_role, plan_export, sorted_clips, ClipRole, ExportPlan, ExportRequest, ExportSettings,
    VideoClip,
};
use vstd::prelude::*;
use vstd::string::*;

verus! {

/// Where a submission stands.
#[derive(Clone, Copy, Debug, PartialEq, Eq, Structural)]
pub enum SubmitStage {
    /// It is not yet known whether the file of the screen clip is there.
    Screen,
    /// It is not yet known whether the file of the webcam clip is there.
    Webcam,
    /// The output path is being resolved.
    Destination,
    /// The request for the native encoder is ready.
    Ready,
    /// The submission has failed; the encoder is not called.
    Failed,
}

/// What is to be done next for a submission.
#[derive(Debug, PartialEq, Eq)]
pub enum SubmitAction {
    /// Find out whether this file exists, and answer.
    FileExists(String),
    /// Put this question of the path resolver to the file system, and
    /// answer.
    Probe(Probe),
    /// Hand this request to the native encoder, and commit its answer to
    /// the export job.
    Encode(ExportRequest),
    /// Give up with this failure.
    Fail(Error),
}

/// One submission on its way to the native encoder.
#[derive(Debug, PartialEq, Eq)]
pub struct Submission {
    pub plan: ExportPlan,
    pub settings: ExportSettings,
    pub resolver: Resolver,
    /// Whether the file of the webcam clip is known to be there.
    pub webcam_exists: bool,
    pub stage: SubmitStage,
}

/// What moves in a submission, as a mathematical value.
pub struct Flow {
    pub stage: SubmitStage,
    /// Whether the plan has a webcam clip.
    pub has_webcam: bool,
    pub webcam_exists: bool,
    pub resolution: Resolution,
}

impl Flow {
    /// Whether the stage fits the resolution: the output path is not
    /// touched before the sources are settled, the request is ready only
    /// with a resolved path, and a failure is either a missing screen clip,
    /// before any resolution, or the failure of the resolution.
    pub open spec fn wf(self) -> bool {
        &&& self.resolution.wf()
        &&& match self.stage {
            SubmitStage::Screen => self.resolution.stage is Directory && !self.webcam_exists,
            SubmitStage::Webcam => self.resolution.stage is Directory && self.has_webcam
                && !self.webcam_exists,
            SubmitStage::Destination => !self.resolution.finished(),
            SubmitStage::Ready => self.resolution.stage is Resolved,
            SubmitStage::Failed => self.resolution.stage is Failed || self.resolution.stage
                is Directory,
        }
        &&& self.webcam_exists ==> self.has_webcam
    }

    /// The stage in which the resolution of the output path leaves the
    /// submission.
    pub open spec fn stage_for(resolution: Resolution) -> SubmitStage {
        match resolution.stage {
            Stage::Resolved(_) => SubmitStage::Ready,
            Stage::Failed(_) => SubmitStage::Failed,
            _ => SubmitStage::Destination,
        }
    }

    /// The submission after the pending question was answered by `yes`.
    /// Without the file of the screen clip it fails at once; the file of
    /// the webcam clip is only taken note of; every other answer goes to
    /// the resolution of the output path.
    pub open spec fn step(self, yes: bool) -> Flow {
        match self.stage {
            SubmitStage::Screen => Flow {
                stage: if !yes {
                    SubmitStage::Failed
                } else if self.has_webcam {
                    SubmitStage::Webcam
                } else {
                    SubmitStage::Destination
                },
                ..self
            },
            SubmitStage::Webcam => Flow {
                stage: SubmitStage::Destination,
                webcam_exists: yes,
                ..self
            },
            SubmitStage::Destination => Flow {
                stage: Flow::stage_for(self.resolution.step(yes)),
                resolution: self.resolution.step(yes),
                ..self
            },
            SubmitStage::Ready => self,
            SubmitStage::Failed => self,
        }
    }

    /// Whether nothing is left to ask.
    pub open spec fn settled(self) -> bool {
        self.stage == SubmitStage::Ready || self.stage == SubmitStage::Failed
    }

    /// A bound on the number of questions still to come.
    pub open spec fn remaining(self) -> nat {
        match self.stage {
            SubmitStage::Screen => (MAX_ATTEMPTS + 4) as nat,
            SubmitStage::Webcam => (MAX_ATTEMPTS + 3) as nat,
            SubmitStage::Destination => self.resolution.remaining(),
            SubmitStage::Ready => 0,
            SubmitStage::Failed => 0,
        }
    }

    /// The kind of failure of a failed submission.
    pub open spec fn failure(self) -> ErrorKind {
        match self.resolution.stage {
            Stage::Failed(kind) => kind,
            _ => ErrorKind::SourceNotFound,
        }
    }
}

impl View for Submission {
    type V = Flow;

    open spec fn view(&self) -> Flow {
        Flow {
            stage: self.stage,
            has_webcam: self.plan.webcam is Some,
            webcam_exists: self.webcam_exists,
            resolution: self.resolver@,
        }
    }
}

impl Submission {
    /// Whether the plan is well formed and the stage fits the resolution.
    pub open spec fn wf(&self) -> bool {
        self.plan.wf() && self@.wf()
    }

    /// Tells whether the plan is well formed and the stage fits the
    /// resolution.
    pub fn is_well_formed(&self) -> (b: bool)
        ensures
            b == self.wf(),
    {
        if !self.plan.is_well_formed() || !self.resolver.is_well_formed() {
            return false;
        }
        if self.webcam_exists && self.plan.webcam.is_none() {
            return false;
        }
        let untouched = match self.resolver.stage {
            Stage::Directory => true,
            _ => false,
        };
        match self.stage {
            SubmitStage::Screen => untouched && !self.webcam_exists,
            SubmitStage::Webcam => untouched && self.plan.webcam.is_some() && !self.webcam_exists,
            SubmitStage::Destination => !self.resolver.is_finished(),
            SubmitStage::Ready => match self.resolver.stage {
                Stage::Resolved(_) => true,
                _ => false,
            },
            SubmitStage::Failed => match self.resolver.stage {
                Stage::Failed(_) => true,
                Stage::Directory => true,
                _ => false,
            },
        }
    }

    /// Begins a submission of `clips` to the output that was asked for as
    /// `requested_output`. It is turned away while an export is running,
    /// and without a screen clip; in that order, and before anything is
    /// asked of the file system. An output that names no directory goes to
    /// `default_directory`.
    pub fn begin(
        job: &ExportJob,
        clips: Vec<VideoClip>,
        requested_output: &str,
        settings: ExportSettings,
        default_directory: &str,
    ) -> (r: Result<Submission, Error>)
        ensures
            r is Ok <==> !job.is_running_spec() && has_role(clips@, ClipRole::Screen),
            match r {
                Ok(s) => {
                    &&& s.wf()
                    &&& s.stage == SubmitStage::Screen
                    &&& s.plan.clips@ == sorted_clips(clips@)
                    &&& s.settings == settings
                    &&& s.resolver@ == Resolution::start(
                        requested_output@,
                        settings.format@,
                        default_directory@,
                    )
                },
                Err(e) => e.detail@.len() == 0 && e.kind == if job.is_running_spec() {
                    ErrorKind::AlreadyRunning
                } else {
                    ErrorKind::NoScreenClip
                },
            },
    {
        match job.admit_submit() {
            Ok(_) => {},
            Err(e) => {
                return Err(e);
            },
        }
        let plan = match plan_export(clips) {
            Ok(plan) => plan,
            Err(e) => {
                return Err(e);
            },
        };
        let resolver = Resolver::new(requested_output, settings.format.as_str(), default_directory);
        Ok(Submission { plan, settings, resolver, webcam_exists: false, stage: SubmitStage::Screen })
    }

    /// What is to be done next: a question to answer, the call of the
    /// native encoder, or giving up.
    pub fn action(&self) -> (r: SubmitAction)
        requires
            self.wf(),
        ensures
            match r {
                SubmitAction::FileExists(path) => match self.stage {
                    SubmitStage::Screen => path@ == self.plan.clips@[self.plan.screen as int].path@,
                    SubmitStage::Webcam => path@ == self.plan.clips@[self.plan.webcam->0 as int].path@,
                    _ => false,
                },
                SubmitAction::Probe(probe) => self.stage == SubmitStage::Destination
                    && self.resolver@.probe() == Some((probe.kind, probe.path@)),
                SubmitAction::Encode(request) => self.stage == SubmitStage::Ready
                    && self.resolver@.outcome() is Some && self.resolver@.outcome()->0 is Ok
                    && request.is_for(
                    &self.plan,
                    self.webcam_exists,
                    self.resolver@.outcome()->0->Ok_0,
                    &self.settings,
                ),
                SubmitAction::Fail(e) => self.stage == SubmitStage::Failed && e.kind
                    == self@.failure() && e.detail@ == match e.kind {
                    ErrorKind::SourceNotFound => self.plan.clips@[self.plan.screen as int].path@,
                    ErrorKind::PathExhausted => Seq::<char>::empty(),
                    _ => self.resolver.directory@,
                },
            },
    {
        match self.stage {
            SubmitStage::Screen => SubmitAction::FileExists(self.plan.screen_clip().path.clone()),
            SubmitStage::Webcam => match self.plan.webcam_clip() {
                Some(clip) => SubmitAction::FileExists(clip.path.clone()),
                None => unreached(),
            },
            SubmitStage::Destination => match self.resolver.pending() {
                Some(probe) => SubmitAction::Probe(probe),
                None => unreached(),
            },
            SubmitStage::Ready => match self.resolver.outcome() {
                Some(Ok(destination)) => SubmitAction::Encode(
                    self.plan.request(self.webcam_exists, destination.as_str(), &self.settings),
                ),
                _ => unreached(),
            },
            SubmitStage::Failed => match self.resolver.outcome() {
                Some(Err(e)) => SubmitAction::Fail(e),
                _ => SubmitAction::Fail(
                    Error::with_detail(
                        ErrorKind::SourceNotFound,
                        self.plan.screen_clip().path.as_str(),
                    ),
                ),
            },
        }
    }

    /// Takes the answer to the pending question and moves on. Once the
    /// request is ready or the submission has failed, an answer changes
    /// nothing.
    pub fn answer(&mut self, yes: bool)
        requires
            old(self).wf(),
        ensures
            final(self).wf(),
            final(self)@ == old(self)@.step(yes),
            final(self).plan == old(self).plan,
            final(self).settings == old(self).settings,
    {
        match self.stage {
            SubmitStage::Screen => {
                self.stage = if !yes {
                    SubmitStage::Failed
                } else if self.plan.webcam.is_some() {
                    SubmitStage::Webcam
                } else {
                    SubmitStage::Destination
                };
            },
            SubmitStage::Webcam => {
                self.webcam_exists = yes;
                self.stage = SubmitStage::Destination;
            },
            SubmitStage::Destination => {
                self.resolver.reply(yes);
                self.stage = match self.resolver.stage {
                    Stage::Resolved(_) => SubmitStage::Ready,
                    Stage::Failed(_) => SubmitStage::Failed,
                    _ => SubmitStage::Destination,
                };
            },
            SubmitStage::Ready => {},
            SubmitStage::Failed => {},
        }
    }

    /// The path that the output goes to, once it is resolved.
    pub fn destination(&self) -> (r: Option<String>)
        ensures
            match r {
                Some(path) => self.resolver@.outcome() == Some(
                    Ok::<Seq<char>, ErrorKind>(path@),
                ),
                None => !(self.resolver@.outcome() is Some && self.resolver@.outcome()->0 is Ok),
            },
    {
        match self.resolver.outcome() {
            Some(Ok(path)) => Some(path),
            _ => None,
        }
    }
}

/// Every answer brings a submission closer to its end, and leaves it well
/// formed; so no submission asks more than `MAX_ATTEMPTS + 4` questions.
pub proof fn lemma_answer_makes_progress(flow: Flow, yes: bool)
    requires
        flow.wf(),
        !flow.settled(),
    ensures
        flow.step(yes).wf(),
        flow.step(yes).remaining() < flow.remaining(),
        flow.remaining() <= MAX_ATTEMPTS + 4,
{
    if flow.stage == SubmitStage::Destination {
        lemma_reply_makes_progress(flow.resolution, yes);
    }
}

/// A submission whose screen clip has no file fails at once, with the
/// output path untouched: nothing was asked of the destination, and no
/// directory was made for it.
pub proof fn lemma_missing_screen_fails_first(flow: Flow)
    requires
        flow.wf(),
        flow.stage == SubmitStage::Screen,
    ensures
        flow.step(false).stage == SubmitStage::Failed,
        flow.step(false).failure() == ErrorKind::SourceNotFound,
        flow.step(false).resolution == flow.resolution,
        flow.resolution.stage is Directory,
{
}

/// A missing file of the webcam clip does not stop a submission: it goes
/// on to resolve its output path, without the webcam clip.
pub proof fn lemma_missing_webcam_goes_on(flow: Flow)
    requires
        flow.wf(),
        flow.stage == SubmitStage::Webcam,
    ensures
        flow.step(false).stage == SubmitStage::Destination,
        !flow.step(false).webcam_exists,
        flow.step(true).stage == SubmitStage::Destination,
        flow.step(true).webcam_exists,
{
}

} // verus!
