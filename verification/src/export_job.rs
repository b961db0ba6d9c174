//! The export job: the state of the one export that may run, and how the
//! answers of the native encoder move it.

use crate::error::{Error, ErrorKind};
use crate::video_processing::WHOLE;
use vstd::prelude::*;
use vstd::string::*;

verus! {

/// What the native encoder answers to a submission or to a question about
/// progress. The two texts have been read out of its buffers.
#[derive(Debug, PartialEq, Eq)]
pub struct ExportResult {
    pub success: bool,
    /// The fraction done, in millionths, as the encoder gave it.
    pub progress: u32,
    pub current_step: String,
    pub error_message: String,
}

/// The progress of an export, as it is reported to the caller.
#[derive(Debug, PartialEq, Eq)]
pub struct ExportProgress {
    /// The fraction done, in millionths.
    pub progress: u32,
    pub current_step: String,
    pub total_steps: u32,
    pub current_step_number: u32,
    pub output_path: Option<String>,
}

/// Where the export job stands.
#[derive(Clone, Copy, Debug, PartialEq, Eq, Structural)]
pub enum ExportState {
    Idle,
    Running,
    Cancelled,
    Failed,
    Completed,
}

/// The one export job. It is free for a submission in every state but
/// `Running`.
#[derive(Debug, PartialEq, Eq)]
pub struct ExportJob {
    pub state: ExportState,
    /// The fraction done, in millionths.
    pub progress: u32,
    pub current_step: String,
    pub output_path: Option<String>,
}

/// The export job as a mathematical value.
pub struct Job {
    pub state: ExportState,
    pub progress: u32,
    pub current_step: Seq<char>,
    pub output_path: Option<Seq<char>>,
}

/// An answer of the native encoder as a mathematical value.
pub struct Answer {
    pub success: bool,
    pub progress: u32,
    pub current_step: Seq<char>,
    pub error_message: Seq<char>,
}

/// The characters of a text that may be absent.
pub open spec fn text_of(s: Option<String>) -> Option<Seq<char>> {
    match s {
        Some(t) => Some(t@),
        None => None,
    }
}

/// `reported`, cut down to the whole.
pub open spec fn capped(reported: u32) -> u32 {
    if reported > WHOLE {
        WHOLE
    } else {
        reported
    }
}

impl Job {
    /// The job at rest, before any submission.
    pub open spec fn idle() -> Job {
        Job { state: ExportState::Idle, progress: 0, current_step: Seq::empty(), output_path: None }
    }

    /// Whether the progress is a fraction, and a running job has its
    /// output path.
    pub open spec fn wf(self) -> bool {
        &&& self.progress <= WHOLE
        &&& self.state == ExportState::Running ==> self.output_path is Some
    }

    /// Whether a submission is taken: the job is not running, and the
    /// encoder accepted.
    pub open spec fn accepts(self, answer: Answer) -> bool {
        self.state != ExportState::Running && answer.success
    }

    /// The job after a submission for `destination` got `answer`.
    pub open spec fn submitted(self, destination: Seq<char>, answer: Answer) -> Job {
        if self.accepts(answer) {
            Job {
                state: ExportState::Running,
                progress: capped(answer.progress),
                current_step: answer.current_step,
                output_path: Some(destination),
            }
        } else {
            self
        }
    }

    /// The progress after the encoder reported `reported`: never less than
    /// before, never more than the whole.
    pub open spec fn advanced(self, reported: u32) -> u32 {
        if capped(reported) > self.progress {
            capped(reported)
        } else {
            self.progress
        }
    }

    /// The job after a question about progress got `answer`. A failure
    /// that the encoder reports ends the job; so does the whole being done.
    pub open spec fn polled(self, answer: Answer) -> Job {
        if self.state != ExportState::Running {
            self
        } else if !answer.success {
            Job { state: ExportState::Failed, ..self }
        } else {
            Job {
                state: if self.advanced(answer.progress) == WHOLE {
                    ExportState::Completed
                } else {
                    ExportState::Running
                },
                progress: self.advanced(answer.progress),
                current_step: answer.current_step,
                output_path: self.output_path,
            }
        }
    }

    /// The job after the encoder was told to cancel.
    pub open spec fn cancelled(self) -> Job {
        if self.state == ExportState::Running {
            Job::idle()
        } else {
            self
        }
    }

    /// The job after one question about progress for each of `answers`.
    pub open spec fn polled_all(self, answers: Seq<Answer>) -> Job
        decreases answers.len(),
    {
        if answers.len() == 0 {
            self
        } else {
            self.polled_all(answers.drop_last()).polled(answers.last())
        }
    }
}

impl View for ExportJob {
    type V = Job;

    open spec fn view(&self) -> Job {
        Job {
            state: self.state,
            progress: self.progress,
            current_step: self.current_step@,
            output_path: text_of(self.output_path),
        }
    }
}

impl View for ExportResult {
    type V = Answer;

    open spec fn view(&self) -> Answer {
        Answer {
            success: self.success,
            progress: self.progress,
            current_step: self.current_step@,
            error_message: self.error_message@,
        }
    }
}

impl ExportProgress {
    /// Whether this report shows the job as it stands.
    pub open spec fn shows(&self, job: Job) -> bool {
        &&& self.progress == job.progress
        &&& self.current_step@ == job.current_step
        &&& self.total_steps == 1
        &&& self.current_step_number == 1
        &&& text_of(self.output_path) == job.output_path
    }
}

impl ExportJob {
    /// Whether the progress is a fraction, and a running job has its
    /// output path.
    pub open spec fn wf(&self) -> bool {
        self@.wf()
    }

    /// Tells whether the progress is a fraction, and a running job has its
    /// output path.
    pub fn is_well_formed(&self) -> (b: bool)
        ensures
            b == self.wf(),
    {
        self.progress <= WHOLE && (self.state != ExportState::Running || self.output_path.is_some())
    }

    /// The job at rest, before any submission.
    pub fn new() -> (job: ExportJob)
        ensures
            job@ == Job::idle(),
            job.wf(),
    {
        ExportJob {
            state: ExportState::Idle,
            progress: 0,
            current_step: String::new(),
            output_path: None,
        }
    }

    /// Whether an export is running.
    pub open spec fn is_running_spec(&self) -> bool {
        self.state == ExportState::Running
    }

    /// Tells whether an export is running.
    #[verifier::when_used_as_spec(is_running_spec)]
    pub fn is_running(&self) -> (b: bool)
        ensures
            b == (self.state == ExportState::Running),
    {
        self.state == ExportState::Running
    }

    /// The report of the job as it stands.
    pub fn report(&self) -> (r: ExportProgress)
        ensures
            r.shows(self@),
    {
        ExportProgress {
            progress: self.progress,
            current_step: self.current_step.clone(),
            total_steps: 1,
            current_step_number: 1,
            output_path: match &self.output_path {
                Some(p) => Some(p.clone()),
                None => None,
            },
        }
    }

    /// Decides whether a submission may go on to the encoder: not while an
    /// export is running.
    pub fn admit_submit(&self) -> (r: Result<(), Error>)
        ensures
            r is Ok <==> self.state != ExportState::Running,
            r matches Err(e) ==> e.kind == ErrorKind::AlreadyRunning && e.detail@.len() == 0,
    {
        if self.is_running() {
            Err(Error::new(ErrorKind::AlreadyRunning))
        } else {
            Ok(())
        }
    }

    /// Takes the encoder's answer to a submission for `destination`. Where
    /// the encoder accepted, the job runs from now on, at the progress the
    /// encoder gave. Where it refused, or another export has begun to run
    /// in the meantime, the job stays as it was.
    pub fn commit_submit(&mut self, destination: String, answer: &ExportResult) -> (r: Result<
        ExportProgress,
        Error,
    >)
        requires
            old(self).wf(),
        ensures
            final(self).wf(),
            final(self)@ == old(self)@.submitted(destination@, answer@),
            r is Ok <==> old(self)@.accepts(answer@),
            match r {
                Ok(report) => report.shows(final(self)@) && final(self).state
                    == ExportState::Running,
                Err(e) => *final(self) == *old(self) && if old(self).state
                    == ExportState::Running {
                    e.kind == ErrorKind::AlreadyRunning && e.detail@.len() == 0
                } else {
                    e.kind == ErrorKind::NativeExportFailed && e.detail@ == answer.error_message@
                },
            },
    {
        if self.is_running() {
            return Err(Error::new(ErrorKind::AlreadyRunning));
        }
        if !answer.success {
            return Err(
                Error::with_detail(ErrorKind::NativeExportFailed, answer.error_message.as_str()),
            );
        }
        self.state = ExportState::Running;
        self.progress = if answer.progress > WHOLE {
            WHOLE
        } else {
            answer.progress
        };
        self.current_step = answer.current_step.clone();
        self.output_path = Some(destination);
        Ok(self.report())
    }

    /// Decides whether a question about progress, or an order to cancel,
    /// may go on to the encoder: only while an export is running.
    pub fn admit_running(&self) -> (r: Result<(), Error>)
        ensures
            r is Ok <==> self.state == ExportState::Running,
            r matches Err(e) ==> e.kind == ErrorKind::NotRunning && e.detail@.len() == 0,
    {
        if self.is_running() {
            Ok(())
        } else {
            Err(Error::new(ErrorKind::NotRunning))
        }
    }

    /// Takes the encoder's answer to a question about progress. The
    /// progress that is kept and reported never falls: a lower value from
    /// the encoder leaves it where it was. A failure that the encoder
    /// reports ends the job as failed; the whole being done ends it as
    /// completed.
    pub fn commit_poll(&mut self, answer: &ExportResult) -> (r: Result<ExportProgress, Error>)
        requires
            old(self).wf(),
        ensures
            final(self).wf(),
            final(self)@ == old(self)@.polled(answer@),
            r is Ok <==> old(self).state == ExportState::Running && answer.success,
            final(self).progress >= old(self).progress,
            match r {
                Ok(report) => report.shows(final(self)@) && report.progress >= old(self).progress,
                Err(e) => if old(self).state == ExportState::Running {
                    e.kind == ErrorKind::NativePollFailed && e.detail@ == answer.error_message@
                } else {
                    e.kind == ErrorKind::NotRunning && e.detail@.len() == 0 && *final(self) == *old(
                        self,
                    )
                },
            },
    {
        if !self.is_running() {
            return Err(Error::new(ErrorKind::NotRunning));
        }
        if !answer.success {
            self.state = ExportState::Failed;
            return Err(
                Error::with_detail(ErrorKind::NativePollFailed, answer.error_message.as_str()),
            );
        }
        let reported: u32 = if answer.progress > WHOLE {
            WHOLE
        } else {
            answer.progress
        };
        if reported > self.progress {
            self.progress = reported;
        }
        self.current_step = answer.current_step.clone();
        if self.progress == WHOLE {
            self.state = ExportState::Completed;
        }
        Ok(self.report())
    }

    /// Takes the encoder's answer to an order to cancel. A running job is
    /// at rest afterwards, whether or not the encoder had anything to
    /// cancel; what the encoder said is handed on.
    pub fn commit_cancel(&mut self, cancelled: bool) -> (r: Result<bool, Error>)
        requires
            old(self).wf(),
        ensures
            final(self).wf(),
            final(self)@ == old(self)@.cancelled(),
            match r {
                Ok(b) => old(self).state == ExportState::Running && b == cancelled && final(self)@
                    == Job::idle(),
                Err(e) => old(self).state != ExportState::Running && e.kind
                    == ErrorKind::NotRunning && e.detail@.len() == 0 && *final(self) == *old(self),
            },
    {
        if !self.is_running() {
            return Err(Error::new(ErrorKind::NotRunning));
        }
        self.state = ExportState::Idle;
        self.progress = 0;
        self.current_step = String::new();
        self.output_path = None;
        Ok(cancelled)
    }
}

/// Questions about progress never lower the progress of a job, whatever
/// the encoder answers.
pub proof fn lemma_poll_never_lowers(job: Job, answer: Answer)
    requires
        job.wf(),
    ensures
        job.polled(answer).wf(),
        job.polled(answer).progress >= job.progress,
        job.polled(answer).output_path == job.output_path,
{
}

/// Over any run of questions about progress, the progress after more
/// answers is no lower than after fewer of them.
pub proof fn lemma_progress_is_monotonic(job: Job, answers: Seq<Answer>, i: int, j: int)
    requires
        job.wf(),
        0 <= i <= j <= answers.len(),
    ensures
        job.polled_all(answers.take(i)).wf(),
        job.polled_all(answers.take(j)).wf(),
        job.polled_all(answers.take(i)).progress <= job.polled_all(answers.take(j)).progress,
    decreases j - i,
{
    lemma_polled_all_wf(job, answers.take(i));
    if i < j {
        lemma_progress_is_monotonic(job, answers, i, j - 1);
        let shorter = answers.take(j - 1);
        let longer = answers.take(j);
        assert(longer.drop_last() == shorter);
        lemma_polled_all_wf(job, shorter);
        lemma_poll_never_lowers(job.polled_all(shorter), longer.last());
    }
}

/// A well-formed job stays well formed over any run of questions about
/// progress.
pub proof fn lemma_polled_all_wf(job: Job, answers: Seq<Answer>)
    requires
        job.wf(),
    ensures
        job.polled_all(answers).wf(),
    decreases answers.len(),
{
    if answers.len() > 0 {
        lemma_polled_all_wf(job, answers.drop_last());
        lemma_poll_never_lowers(job.polled_all(answers.drop_last()), answers.last());
    }
}

/// The job is running exactly from an accepted submission until it is
/// cancelled, fails or completes, and a submission that is not accepted
/// changes nothing.
pub proof fn lemma_job_transitions(job: Job, destination: Seq<char>, answer: Answer)
    requires
        job.wf(),
    ensures
        job.submitted(destination, answer).wf(),
        job.accepts(answer) ==> job.submitted(destination, answer).state == ExportState::Running,
        !job.accepts(answer) ==> job.submitted(destination, answer) == job,
        job.cancelled().wf(),
        job.cancelled().state != ExportState::Running,
        job.state != ExportState::Running ==> job.polled(answer) == job && job.cancelled() == job,
{
}

} // verus!
