use clipforge::error::{ErrorClass, ErrorKind};
use clipforge::export_job::{ExportJob, ExportResult, ExportState};
use clipforge::submission::{SubmitAction, Submission};
use clipforge::video_processing::{
    derive_pip, find_clip, plan_export, sort_clips, ClipRole, ExportSettings, PipConfig,
    PipPlacement, PipShape, VideoClip, WHOLE,
};

fn clip(path: &str, start_time: i64, role: ClipRole) -> VideoClip {
    VideoClip { path: path.to_string(), start_time, duration: 1_000_000, role, pip_config: None }
}

fn settings(format: &str) -> ExportSettings {
    ExportSettings {
        resolution: "1080p".to_string(),
        quality: "high".to_string(),
        format: format.to_string(),
        preset: "fast".to_string(),
    }
}

fn answer(success: bool, progress: u32, step: &str, message: &str) -> ExportResult {
    ExportResult {
        success,
        progress,
        current_step: step.to_string(),
        error_message: message.to_string(),
    }
}

fn running_job(progress: u32) -> ExportJob {
    let mut job = ExportJob::new();
    job.commit_submit("/out/a.mp4".to_string(), &answer(true, progress, "Preparing", "")).unwrap();
    job
}

#[test]
fn clips_are_ordered_by_start_time() {
    let sorted = sort_clips(vec![
        clip("c", 30, ClipRole::Screen),
        clip("a", 10, ClipRole::Webcam),
        clip("b", 20, ClipRole::Screen),
        clip("z", -5, ClipRole::Screen),
    ]);
    let paths: Vec<&str> = sorted.iter().map(|c| c.path.as_str()).collect();
    assert_eq!(paths, vec!["z", "a", "b", "c"]);
}

#[test]
fn ties_keep_the_order_of_the_input() {
    let sorted = sort_clips(vec![
        clip("first", 5, ClipRole::Screen),
        clip("early", 1, ClipRole::Screen),
        clip("second", 5, ClipRole::Webcam),
        clip("third", 5, ClipRole::Screen),
        clip("zero", 0, ClipRole::Screen),
    ]);
    let paths: Vec<&str> = sorted.iter().map(|c| c.path.as_str()).collect();
    assert_eq!(paths, vec!["zero", "early", "first", "second", "third"]);
}

#[test]
fn sorting_nothing_gives_nothing() {
    assert_eq!(sort_clips(vec![]), vec![]);
}

#[test]
fn screen_at_five_and_webcam_at_zero() {
    let plan = plan_export(vec![
        clip("/v/screen.mov", 5_000_000, ClipRole::Screen),
        clip("/v/webcam.mov", 0, ClipRole::Webcam),
    ])
    .unwrap();
    assert_eq!(plan.clips.len(), 2);
    assert_eq!(plan.clips[0].role, ClipRole::Webcam);
    assert_eq!(plan.clips[0].start_time, 0);
    assert_eq!(plan.clips[1].role, ClipRole::Screen);
    assert_eq!(plan.clips[1].start_time, 5_000_000);
    assert_eq!(plan.screen_clip().path, "/v/screen.mov");
    assert_eq!(plan.webcam_clip().unwrap().path, "/v/webcam.mov");

    let other = plan_export(vec![
        clip("/v/webcam.mov", 0, ClipRole::Webcam),
        clip("/v/screen.mov", 5_000_000, ClipRole::Screen),
    ])
    .unwrap();
    assert_eq!(other, plan);
}

#[test]
fn the_earliest_clip_of_a_role_is_selected() {
    let plan = plan_export(vec![
        clip("late-screen", 9, ClipRole::Screen),
        clip("cam-b", 4, ClipRole::Webcam),
        clip("early-screen", 2, ClipRole::Screen),
        clip("cam-a", 4, ClipRole::Webcam),
    ])
    .unwrap();
    assert_eq!(plan.screen, 0);
    assert_eq!(plan.webcam, Some(1));
    assert_eq!(plan.screen_clip().path, "early-screen");
    assert_eq!(plan.webcam_clip().unwrap().path, "cam-b");
}

#[test]
fn find_clip_gives_the_first_of_a_role() {
    let clips = vec![
        clip("a", 0, ClipRole::Webcam),
        clip("b", 1, ClipRole::Screen),
        clip("c", 2, ClipRole::Screen),
    ];
    assert_eq!(find_clip(&clips, ClipRole::Screen), Some(1));
    assert_eq!(find_clip(&clips, ClipRole::Webcam), Some(0));
    assert_eq!(find_clip(&clips[..1].iter().map(|c| clip(&c.path, 0, c.role)).collect(), ClipRole::Screen), None);
    assert_eq!(find_clip(&vec![], ClipRole::Webcam), None);
}

#[test]
fn no_screen_clip_is_refused_and_the_job_stays_idle() {
    let job = ExportJob::new();
    assert!(job.admit_submit().is_ok());
    let e = plan_export(vec![clip("/v/webcam.mov", 0, ClipRole::Webcam)]).unwrap_err();
    assert_eq!(e.kind, ErrorKind::NoScreenClip);
    assert_eq!(e.class(), ErrorClass::InvalidInput);
    assert_eq!(plan_export(vec![]).unwrap_err().kind, ErrorKind::NoScreenClip);
    assert_eq!(job.state, ExportState::Idle);
    assert_eq!(job, ExportJob::new());
}

#[test]
fn missing_screen_file_is_source_not_found() {
    let job = ExportJob::new();
    let mut submission = Submission::begin(
        &job,
        vec![clip("/v/screen.mov", 0, ClipRole::Screen)],
        "out.mp4",
        settings("mp4"),
        "/d",
    )
    .unwrap();
    submission.answer(false);
    match submission.action() {
        SubmitAction::Fail(e) => {
            assert_eq!(e.kind, ErrorKind::SourceNotFound);
            assert_eq!(e.detail, "/v/screen.mov");
            assert_eq!(e.message(), "Screen recording file not found: /v/screen.mov");
        }
        other => panic!("{:?}", other),
    }
    assert_eq!(job, ExportJob::new());
}

#[test]
fn missing_webcam_file_exports_without_pip() {
    let plan = plan_export(vec![
        clip("/v/screen.mov", 0, ClipRole::Screen),
        clip("/v/webcam.mov", 0, ClipRole::Webcam),
    ])
    .unwrap();
    let request = plan.request(false, "/out/a.mp4", &settings("mp4"));
    assert_eq!(request.screen_path, "/v/screen.mov");
    assert_eq!(request.webcam_path, None);
    assert_eq!(request.pip, PipPlacement { x: 0, y: 0, size: 0, shape: PipShape::Rectangle });
    assert!(request.webcam_missing);
    let mut job = ExportJob::new();
    let report = job.commit_submit("/out/a.mp4".to_string(), &answer(true, 0, "Preparing", ""));
    assert!(report.is_ok());
    assert_eq!(job.state, ExportState::Running);
}

#[test]
fn request_carries_sources_settings_and_default_pip() {
    let plan = plan_export(vec![
        clip("/v/screen.mov", 0, ClipRole::Screen),
        clip("/v/webcam.mov", 0, ClipRole::Webcam),
    ])
    .unwrap();
    let request = plan.request(true, "/out/a.mp4", &settings("mov"));
    assert_eq!(request.screen_path, "/v/screen.mov");
    assert_eq!(request.webcam_path, Some("/v/webcam.mov".to_string()));
    assert_eq!(request.output_path, "/out/a.mp4");
    assert_eq!(request.format, "mov");
    assert_eq!(request.quality, "high");
    assert_eq!(request.resolution, "1080p");
    assert_eq!(
        request.pip,
        PipPlacement { x: 800_000, y: 800_000, size: 200_000, shape: PipShape::Rectangle }
    );
    assert!(!request.webcam_missing);
}

#[test]
fn request_takes_pip_from_the_webcam_clip() {
    let mut webcam = clip("/v/webcam.mov", 0, ClipRole::Webcam);
    webcam.pip_config = Some(PipConfig {
        x: 100_000,
        y: 50_000,
        width: 300_000,
        height: 250_000,
        shape: PipShape::Circle,
    });
    let plan = plan_export(vec![clip("/v/screen.mov", 0, ClipRole::Screen), webcam]).unwrap();
    let request = plan.request(true, "/out/a.mp4", &settings("mp4"));
    assert_eq!(
        request.pip,
        PipPlacement { x: 100_000, y: 50_000, size: 300_000, shape: PipShape::Circle }
    );
}

#[test]
fn request_without_webcam_clip_has_no_pip() {
    let plan = plan_export(vec![clip("/v/screen.mov", 0, ClipRole::Screen)]).unwrap();
    let request = plan.request(true, "/out/a.mp4", &settings("mp4"));
    assert_eq!(request.webcam_path, None);
    assert_eq!(request.pip, PipPlacement { x: 0, y: 0, size: 0, shape: PipShape::Rectangle });
    assert!(!request.webcam_missing);
    assert_eq!(derive_pip(None), request.pip);
}

#[test]
fn text_with_a_nul_goes_out_empty() {
    let plan = plan_export(vec![clip("/v/scr\0een.mov", 0, ClipRole::Screen)]).unwrap();
    let request = plan.request(true, "/out/a\0.mp4", &settings("mp4"));
    assert_eq!(request.screen_path, "");
    assert_eq!(request.output_path, "");
    assert_eq!(request.format, "mp4");
}

#[test]
fn submit_commits_running_with_the_progress_given() {
    let mut job = ExportJob::new();
    assert!(!job.is_running());
    let report = job
        .commit_submit("/out/a.mp4".to_string(), &answer(true, 250_000, "Composing", ""))
        .unwrap();
    assert_eq!(report.progress, 250_000);
    assert_eq!(report.current_step, "Composing");
    assert_eq!(report.total_steps, 1);
    assert_eq!(report.current_step_number, 1);
    assert_eq!(report.output_path, Some("/out/a.mp4".to_string()));
    assert!(job.is_running());
    assert_eq!(job.progress, 250_000);
    assert_eq!(job.output_path, Some("/out/a.mp4".to_string()));
    assert_eq!(job.report(), report);
}

#[test]
fn submit_caps_progress_at_the_whole() {
    let mut job = ExportJob::new();
    let report =
        job.commit_submit("/out/a.mp4".to_string(), &answer(true, 4_000_000, "", "")).unwrap();
    assert_eq!(report.progress, WHOLE);
    assert_eq!(WHOLE, 1_000_000);
}

#[test]
fn refused_submit_leaves_the_job_idle() {
    let mut job = ExportJob::new();
    let e = job
        .commit_submit("/out/a.mp4".to_string(), &answer(false, 0, "", "no encoder"))
        .unwrap_err();
    assert_eq!(e.kind, ErrorKind::NativeExportFailed);
    assert_eq!(e.detail, "no encoder");
    assert_eq!(e.class(), ErrorClass::NativeFailure);
    assert_eq!(job, ExportJob::new());
}

#[test]
fn second_submit_while_running_is_a_conflict() {
    let mut job = running_job(100_000);
    let e = job.admit_submit().unwrap_err();
    assert_eq!(e.kind, ErrorKind::AlreadyRunning);
    assert_eq!(e.class(), ErrorClass::StateConflict);
    let before = running_job(100_000);
    let e = job.commit_submit("/out/b.mp4".to_string(), &answer(true, 0, "", "")).unwrap_err();
    assert_eq!(e.kind, ErrorKind::AlreadyRunning);
    assert_eq!(job, before);
}

#[test]
fn poll_on_an_idle_job_is_not_running() {
    let mut job = ExportJob::new();
    assert_eq!(job.admit_running().unwrap_err().kind, ErrorKind::NotRunning);
    let e = job.commit_poll(&answer(true, 500_000, "", "")).unwrap_err();
    assert_eq!(e.kind, ErrorKind::NotRunning);
    assert_eq!(job, ExportJob::new());
}

#[test]
fn progress_never_falls() {
    let mut job = running_job(100_000);
    assert!(job.admit_running().is_ok());
    let reported = [300_000, 200_000, 0, 300_000, 650_000, 10, 900_000];
    let expected = [300_000, 300_000, 300_000, 300_000, 650_000, 650_000, 900_000];
    let mut last = 0;
    for (r, e) in reported.iter().zip(expected.iter()) {
        let report = job.commit_poll(&answer(true, *r, "Encoding", "")).unwrap();
        assert_eq!(report.progress, *e);
        assert!(report.progress >= last);
        last = report.progress;
        assert_eq!(job.progress, *e);
        assert_eq!(job.state, ExportState::Running);
    }
}

#[test]
fn poll_reports_step_and_path() {
    let mut job = running_job(0);
    let report = job.commit_poll(&answer(true, 10, "Writing", "")).unwrap();
    assert_eq!(report.current_step, "Writing");
    assert_eq!(report.output_path, Some("/out/a.mp4".to_string()));
    assert_eq!(report.total_steps, 1);
    assert_eq!(report.current_step_number, 1);
}

#[test]
fn the_whole_completes_the_job() {
    let mut job = running_job(0);
    let report = job.commit_poll(&answer(true, 2_000_000, "Done", "")).unwrap();
    assert_eq!(report.progress, 1_000_000);
    assert_eq!(job.state, ExportState::Completed);
    assert_eq!(job.commit_poll(&answer(true, 5, "", "")).unwrap_err().kind, ErrorKind::NotRunning);
    assert!(job.admit_submit().is_ok());
    job.commit_submit("/out/b.mp4".to_string(), &answer(true, 0, "Again", "")).unwrap();
    assert_eq!(job.state, ExportState::Running);
    assert_eq!(job.progress, 0);
    assert_eq!(job.output_path, Some("/out/b.mp4".to_string()));
}

#[test]
fn failure_reported_on_poll_fails_the_job() {
    let mut job = running_job(400_000);
    let e = job.commit_poll(&answer(false, 0, "", "disk full")).unwrap_err();
    assert_eq!(e.kind, ErrorKind::NativePollFailed);
    assert_eq!(e.detail, "disk full");
    assert_eq!(job.state, ExportState::Failed);
    assert_eq!(job.progress, 400_000);
    assert!(job.admit_submit().is_ok());
}

#[test]
fn cancel_on_an_idle_job_is_not_running() {
    let mut job = ExportJob::new();
    let e = job.commit_cancel(true).unwrap_err();
    assert_eq!(e.kind, ErrorKind::NotRunning);
    assert_eq!(e.class(), ErrorClass::StateConflict);
    assert_eq!(job, ExportJob::new());
}

#[test]
fn cancel_returns_a_running_job_to_idle() {
    let mut job = running_job(400_000);
    assert_eq!(job.commit_cancel(true), Ok(true));
    assert_eq!(job, ExportJob::new());
    let mut job = running_job(400_000);
    assert_eq!(job.commit_cancel(false), Ok(false));
    assert_eq!(job.state, ExportState::Idle);
    assert_eq!(job, ExportJob::new());
    assert_eq!(job.commit_cancel(false).unwrap_err().kind, ErrorKind::NotRunning);
}

#[test]
fn roles_and_outlines_have_names() {
    assert_eq!(ClipRole::from_name("screen"), Some(ClipRole::Screen));
    assert_eq!(ClipRole::from_name("webcam"), Some(ClipRole::Webcam));
    assert_eq!(ClipRole::from_name("Screen"), None);
    assert_eq!(ClipRole::from_name(""), None);
    assert_eq!(ClipRole::Screen.name(), "screen");
    assert_eq!(ClipRole::Webcam.name(), "webcam");
    assert_eq!(PipShape::from_name("rectangle"), PipShape::Rectangle);
    assert_eq!(PipShape::from_name("circle"), PipShape::Circle);
    assert_eq!(PipShape::from_name("rounded_rect"), PipShape::RoundedRect);
    assert_eq!(PipShape::from_name("star"), PipShape::Rectangle);
    for shape in [PipShape::Rectangle, PipShape::Circle, PipShape::RoundedRect] {
        assert_eq!(PipShape::from_name(shape.name()), shape);
    }
}

#[test]
fn plans_and_jobs_know_their_shape() {
    let plan = plan_export(vec![
        clip("b", 2, ClipRole::Screen),
        clip("a", 1, ClipRole::Webcam),
        clip("c", 3, ClipRole::Screen),
    ])
    .unwrap();
    assert!(plan.is_well_formed());
    let mut wrong = plan_export(vec![
        clip("b", 2, ClipRole::Screen),
        clip("a", 1, ClipRole::Webcam),
        clip("c", 3, ClipRole::Screen),
    ])
    .unwrap();
    wrong.screen = 2;
    assert!(!wrong.is_well_formed());
    wrong.screen = 1;
    wrong.webcam = None;
    assert!(!wrong.is_well_formed());
    wrong.webcam = Some(0);
    assert!(wrong.is_well_formed());
    wrong.clips.swap(0, 2);
    assert!(!wrong.is_well_formed());

    let mut job = running_job(5);
    assert!(job.is_well_formed());
    job.output_path = None;
    assert!(!job.is_well_formed());
    job.state = ExportState::Failed;
    assert!(job.is_well_formed());
    job.progress = WHOLE + 1;
    assert!(!job.is_well_formed());
}
