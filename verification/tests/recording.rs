use clipforge::error::{ErrorClass, ErrorKind};
use clipforge::screen_capture::{
    capture_request, check_is_recording, check_screen_recording_permission, get_screens,
    CaptureRequest, CaptureResult, Display, RecordingState, ScreenInfo,
};

fn ok() -> CaptureResult {
    CaptureResult { success: true, error_message: String::new() }
}

fn failed(message: &str) -> CaptureResult {
    CaptureResult { success: false, error_message: message.to_string() }
}

#[test]
fn session_starts_idle() {
    let state = RecordingState::new();
    assert!(!state.is_recording);
    assert_eq!(state.output_path, None);
    assert!(state.admit_start().is_ok());
    assert_eq!(state.admit_stop().unwrap_err().kind, ErrorKind::NotRecording);
}

#[test]
fn start_then_stop() {
    let mut state = RecordingState::new();
    assert_eq!(state.commit_start("/d/a.mp4".to_string(), &ok()), Ok("/d/a.mp4".to_string()));
    assert!(state.is_recording);
    assert_eq!(state.output_path, Some("/d/a.mp4".to_string()));
    assert!(state.admit_stop().is_ok());
    assert_eq!(state.commit_stop(&ok()), Ok("/d/a.mp4".to_string()));
    assert_eq!(state, RecordingState::new());
}

#[test]
fn second_start_while_recording_is_a_conflict() {
    let mut state = RecordingState::new();
    state.commit_start("/d/a.mp4".to_string(), &ok()).unwrap();
    let e = state.admit_start().unwrap_err();
    assert_eq!(e.kind, ErrorKind::AlreadyRecording);
    assert_eq!(e.class(), ErrorClass::StateConflict);
    assert_eq!(e.message(), "Recording already in progress");
    let e = state.commit_start("/d/b.mp4".to_string(), &ok()).unwrap_err();
    assert_eq!(e.kind, ErrorKind::AlreadyRecording);
    assert_eq!(state.output_path, Some("/d/a.mp4".to_string()));
    assert!(state.is_recording);
}

#[test]
fn failed_start_leaves_the_session_idle() {
    let mut state = RecordingState::new();
    let e = state.commit_start("/d/a.mp4".to_string(), &failed("no permission")).unwrap_err();
    assert_eq!(e.kind, ErrorKind::NativeStartFailed);
    assert_eq!(e.detail, "no permission");
    assert_eq!(e.class(), ErrorClass::NativeFailure);
    assert_eq!(e.message(), "Failed to start recording: no permission");
    assert_eq!(state, RecordingState::new());
    assert_eq!(state.commit_start("/d/a.mp4".to_string(), &ok()), Ok("/d/a.mp4".to_string()));
}

#[test]
fn stop_while_idle_is_a_conflict() {
    let mut state = RecordingState::new();
    let e = state.commit_stop(&ok()).unwrap_err();
    assert_eq!(e.kind, ErrorKind::NotRecording);
    assert_eq!(e.class(), ErrorClass::StateConflict);
    assert_eq!(e.message(), "No recording in progress");
    assert_eq!(state, RecordingState::new());
}

#[test]
fn failed_stop_keeps_recording() {
    let mut state = RecordingState::new();
    state.commit_start("/d/a.mp4".to_string(), &ok()).unwrap();
    let e = state.commit_stop(&failed("writer busy")).unwrap_err();
    assert_eq!(e.kind, ErrorKind::NativeStopFailed);
    assert_eq!(e.detail, "writer busy");
    assert!(state.is_recording);
    assert_eq!(state.output_path, Some("/d/a.mp4".to_string()));
    assert_eq!(state.commit_stop(&ok()), Ok("/d/a.mp4".to_string()));
}

#[test]
fn sequences_of_starts_and_stops() {
    let mut state = RecordingState::new();
    let mut native_starts = 0;
    let script = [
        (true, true),
        (true, true),
        (false, false),
        (true, true),
        (false, true),
        (false, true),
        (true, false),
        (true, true),
    ];
    let mut recording = false;
    for (n, (start, native_ok)) in script.iter().enumerate() {
        let answer = if *native_ok { ok() } else { failed("x") };
        if *start {
            let admitted = state.admit_start().is_ok();
            assert_eq!(admitted, !recording);
            if admitted {
                native_starts += 1;
                let r = state.commit_start(format!("/d/{}.mp4", n), &answer);
                assert_eq!(r.is_ok(), *native_ok);
                recording = *native_ok;
            }
        } else {
            let admitted = state.admit_stop().is_ok();
            assert_eq!(admitted, recording);
            if admitted {
                let r = state.commit_stop(&answer);
                assert_eq!(r.is_ok(), *native_ok);
                if *native_ok {
                    recording = false;
                }
            }
        }
        assert_eq!(state.is_recording, recording);
        assert_eq!(state.output_path.is_some(), recording);
    }
    assert_eq!(native_starts, 3);
    assert!(state.is_recording);
    assert_eq!(state.output_path, Some("/d/7.mp4".to_string()));
}

#[test]
fn native_answer_decides_whether_a_recording_is_active() {
    let mut state = RecordingState::new();
    assert!(!check_is_recording(&state, None));
    assert!(check_is_recording(&state, Some(true)));
    state.commit_start("/d/a.mp4".to_string(), &ok()).unwrap();
    assert!(check_is_recording(&state, None));
    assert!(!check_is_recording(&state, Some(false)));
    assert!(check_is_recording(&state, Some(true)));
}

#[test]
fn permission_without_a_permission_system_is_granted() {
    assert_eq!(check_screen_recording_permission("1", None), Ok(true));
    assert_eq!(check_screen_recording_permission("not a display", None), Ok(true));
}

#[test]
fn permission_is_what_the_platform_says() {
    assert_eq!(check_screen_recording_permission("1", Some(true)), Ok(true));
    assert_eq!(check_screen_recording_permission("69733632", Some(false)), Ok(false));
    let e = check_screen_recording_permission("main", Some(true)).unwrap_err();
    assert_eq!(e.kind, ErrorKind::InvalidScreenId);
    assert_eq!(e.class(), ErrorClass::InvalidInput);
}

#[test]
fn screens_are_named_by_position() {
    let displays = vec![
        Display { id: 69733632, width: 2560, height: 1440 },
        Display { id: 2, width: 1920, height: 1080 },
        Display { id: 4294967295, width: 0, height: 0 },
    ];
    let screens = get_screens(0, &displays).unwrap();
    assert_eq!(
        screens,
        vec![
            ScreenInfo {
                id: "69733632".to_string(),
                name: "Display 1".to_string(),
                width: 2560,
                height: 1440,
                is_primary: true,
            },
            ScreenInfo {
                id: "2".to_string(),
                name: "Display 2".to_string(),
                width: 1920,
                height: 1080,
                is_primary: false,
            },
            ScreenInfo {
                id: "4294967295".to_string(),
                name: "Display 3".to_string(),
                width: 0,
                height: 0,
                is_primary: false,
            },
        ]
    );
    for (screen, display) in screens.iter().zip(displays.iter()) {
        let request =
            capture_request(&screen.id, false, false, None, None, None, None, "/d/a.mp4").unwrap();
        assert_eq!(request.display_id, display.id);
    }
}

#[test]
fn no_displays_no_screens() {
    assert_eq!(get_screens(0, &vec![]), Ok(vec![]));
}

#[test]
fn failed_listing_is_an_enumeration_failure() {
    let displays = vec![Display { id: 1, width: 1, height: 1 }];
    for status in [1, -1, 1000, i32::MIN] {
        let e = get_screens(status, &displays).unwrap_err();
        assert_eq!(e.kind, ErrorKind::EnumerationFailed);
        assert_eq!(e.message(), "Failed to get display list");
    }
}

#[test]
fn capture_request_fills_in_the_defaults() {
    let request = capture_request("3", true, false, None, None, None, None, "/d/a.mp4").unwrap();
    assert_eq!(
        request,
        CaptureRequest {
            display_id: 3,
            include_audio: true,
            include_webcam: false,
            pip_shape: 0,
            pip_x: 800_000,
            pip_y: 800_000,
            pip_size: 200_000,
            output_path: "/d/a.mp4".to_string(),
        }
    );
}

#[test]
fn capture_request_keeps_what_was_asked() {
    let request = capture_request(
        "+42",
        false,
        true,
        Some(2),
        Some(10),
        Some(20),
        Some(300_000),
        "/d/b.mov",
    )
    .unwrap();
    assert_eq!(
        request,
        CaptureRequest {
            display_id: 42,
            include_audio: false,
            include_webcam: true,
            pip_shape: 2,
            pip_x: 10,
            pip_y: 20,
            pip_size: 300_000,
            output_path: "/d/b.mov".to_string(),
        }
    );
}

#[test]
fn capture_request_refuses_bad_screen_ids() {
    for id in ["", "main", "-1", "1.5", " 1", "1 ", "4294967296", "+", "0x10", "１"] {
        let e = capture_request(id, false, false, None, None, None, None, "/d/a.mp4").unwrap_err();
        assert_eq!(e.kind, ErrorKind::InvalidScreenId);
        assert_eq!(e.message(), "Invalid screen ID");
    }
}

#[test]
fn capture_request_refuses_a_path_with_nul() {
    let e = capture_request("1", false, false, None, None, None, None, "/d/a\0.mp4").unwrap_err();
    assert_eq!(e.kind, ErrorKind::InvalidOutputPath);
    assert_eq!(e.class(), ErrorClass::InvalidInput);
    let e = capture_request("x", false, false, None, None, None, None, "/d/a\0.mp4").unwrap_err();
    assert_eq!(e.kind, ErrorKind::InvalidScreenId);
}

#[test]
fn sessions_know_their_shape() {
    let mut state = RecordingState::new();
    assert!(state.is_well_formed());
    state.is_recording = true;
    assert!(!state.is_well_formed());
    state.output_path = Some("/d/a.mp4".to_string());
    assert!(state.is_well_formed());
    state.is_recording = false;
    assert!(!state.is_well_formed());
}
