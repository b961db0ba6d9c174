use clipforge::error::ErrorKind;
use clipforge::media::{
    get_recording_devices, is_listed_extension, is_media_file, is_video_extension,
    temp_directory_name, validate_media_file,
};

#[test]
fn listed_extensions() {
    for e in ["mp4", "mov", "webm", "avi"] {
        assert!(is_listed_extension(e));
        assert!(is_video_extension(e));
    }
    assert!(!is_listed_extension("mkv"));
    assert!(is_video_extension("mkv"));
    for e in ["", "gif", "mp3", "MP4", "mp4 "] {
        assert!(!is_listed_extension(e));
        assert!(!is_video_extension(e));
    }
}

#[test]
fn extensions_are_matched_in_any_case() {
    assert!(is_media_file("MP4"));
    assert!(is_media_file("Mov"));
    assert!(is_media_file("webm"));
    assert!(!is_media_file("MKV"));
    assert!(!is_media_file("txt"));
}

#[test]
fn media_files_are_validated_by_extension() {
    assert_eq!(validate_media_file("/v/a.MKV", true, Some("MKV")), Ok(true));
    assert_eq!(validate_media_file("/v/a.mp4", true, Some("mp4")), Ok(true));
    assert_eq!(validate_media_file("/v/a.txt", true, Some("txt")), Ok(false));
    assert_eq!(validate_media_file("/v/a.\u{212a}", true, Some("m\u{212a}v")), Ok(true));
}

#[test]
fn missing_media_file_is_reported() {
    let e = validate_media_file("/v/a.mp4", false, Some("mp4")).unwrap_err();
    assert_eq!(e.kind, ErrorKind::FileNotFound);
    assert_eq!(e.message(), "File does not exist: /v/a.mp4");
}

#[test]
fn media_file_without_extension_is_reported() {
    let e = validate_media_file("/v/a", true, None).unwrap_err();
    assert_eq!(e.kind, ErrorKind::InvalidExtension);
    assert_eq!(e.message(), "Invalid file extension");
}

#[test]
fn working_directories_are_named_by_time() {
    assert_eq!(temp_directory_name(0), "recording_0");
    assert_eq!(temp_directory_name(1_700_000_000), "recording_1700000000");
    assert_eq!(temp_directory_name(-1), "recording_-1");
    assert_eq!(temp_directory_name(i64::MAX), "recording_9223372036854775807");
    assert_eq!(temp_directory_name(i64::MIN), "recording_-9223372036854775808");
}

#[test]
fn three_things_can_be_recorded() {
    assert_eq!(
        get_recording_devices(),
        vec!["Entire Screen".to_string(), "Window".to_string(), "Browser Tab".to_string()]
    );
}
