use clipforge::output_path::{
    candidate_name, extension_for_format, format_of_name, join_path, normalize_extension, output_file_name,
    path_is_absolute, sanitize_filename, split_path,
};
use clipforge::resolver::MAX_ATTEMPTS;

#[test]
fn sanitize_replaces_colon_and_space() {
    assert_eq!(sanitize_filename("My Clip:1.mp4"), "My_Clip_1.mp4");
}

#[test]
fn sanitize_replaces_every_hostile_character() {
    assert_eq!(sanitize_filename("a/b\\c:d*e?f\"g<h>i|j k"), "a_b_c_d_e_f_g_h_i_j_k");
}

#[test]
fn sanitize_keeps_ordinary_names() {
    assert_eq!(sanitize_filename("holiday-2024_final.mov"), "holiday-2024_final.mov");
    assert_eq!(sanitize_filename(""), "");
    assert_eq!(sanitize_filename("été.mp4"), "été.mp4");
}

#[test]
fn sanitize_trims_white_space_at_both_ends() {
    assert_eq!(sanitize_filename("\tclip.mp4\n"), "clip.mp4");
    assert_eq!(sanitize_filename("  clip.mp4 "), "clip.mp4");
    assert_eq!(sanitize_filename(" my clip "), "my_clip");
    assert_eq!(sanitize_filename("   "), "");
    assert_eq!(sanitize_filename("\u{a0}\u{3000}clip\u{2003}"), "clip");
    assert_eq!(sanitize_filename("\t\n\r"), "");
    assert_eq!(sanitize_filename("a\tb"), "a\tb");
}

#[test]
fn sanitize_twice_is_sanitize_once() {
    for name in ["My Clip:1.mp4", " a ", "\tx/y\t", "", "plain"] {
        let once = sanitize_filename(name);
        assert_eq!(sanitize_filename(&once), once);
    }
}

#[test]
fn requested_name_round_trip() {
    let name = output_file_name("My Clip:1.mp4", "mp4");
    assert!(name.ends_with("My_Clip_1.mp4"));
    assert_eq!(name, "My_Clip_1.mp4");
}

#[test]
fn file_name_takes_the_extension_of_the_format() {
    assert_eq!(output_file_name("talk.mp4", "mov"), "talk.mov");
    assert_eq!(output_file_name("talk", "webm"), "talk.webm");
    assert_eq!(output_file_name("talk.tar.gz", "gif"), "talk.tar.gif");
    assert_eq!(output_file_name("talk.MP4", "mp4"), "talk.mp4");
    assert_eq!(output_file_name("talk.mp4", "unknown"), "talk.mp4");
}

#[test]
fn empty_name_falls_back() {
    assert_eq!(output_file_name("", "mp4"), "clipforge-export.mp4");
    assert_eq!(output_file_name("\t", "mov"), "clipforge-export.mov");
}

#[test]
fn extension_mapping() {
    assert_eq!(extension_for_format("mp4"), "mp4");
    assert_eq!(extension_for_format("mpeg4"), "mp4");
    assert_eq!(extension_for_format("mov"), "mov");
    assert_eq!(extension_for_format("quicktime"), "mov");
    assert_eq!(extension_for_format("webm"), "webm");
    assert_eq!(extension_for_format("gif"), "gif");
    assert_eq!(extension_for_format("mp3"), "mp3");
    assert_eq!(extension_for_format("avi"), "mp4");
    assert_eq!(extension_for_format("MP4"), "mp4");
    assert_eq!(extension_for_format("MOV"), "mp4");
    assert_eq!(extension_for_format(""), "mp4");
}

#[test]
fn extension_is_replaced() {
    assert_eq!(normalize_extension("clip.avi", "mov"), "clip.mov");
    assert_eq!(normalize_extension("clip", "mov"), "clip.mov");
    assert_eq!(normalize_extension("clip.mov", "mov"), "clip.mov");
    assert_eq!(normalize_extension("a.b.c", "gif"), "a.b.gif");
    assert_eq!(normalize_extension("clip.", "mp4"), "clip.mp4");
    assert_eq!(normalize_extension(".mp4", "mp4"), ".mp4");
    assert_eq!(normalize_extension("", "mp4"), ".mp4");
}

#[test]
fn candidates_are_numbered_before_the_extension() {
    assert_eq!(candidate_name("clip.mp4", 0), "clip.mp4");
    assert_eq!(candidate_name("clip.mp4", 1), "clip_(1).mp4");
    assert_eq!(candidate_name("clip.mp4", 10), "clip_(10).mp4");
    assert_eq!(candidate_name("clip.mp4", 999), "clip_(999).mp4");
    assert_eq!(candidate_name("clip", 3), "clip_(3)");
    assert_eq!(candidate_name("a.b.mp4", 2), "a.b_(2).mp4");
    assert_eq!(candidate_name("clip.mp4", 4_294_967_295), "clip_(4294967295).mp4");
}

#[test]
fn candidates_differ_from_each_other() {
    let mut seen = std::collections::HashSet::new();
    for n in 0..MAX_ATTEMPTS {
        assert!(seen.insert(candidate_name("clip.mp4", n)));
    }
    assert_eq!(seen.len(), 1000);
}

#[test]
fn join_adds_one_slash() {
    assert_eq!(join_path("/home/u/Downloads", "clip.mp4"), "/home/u/Downloads/clip.mp4");
    assert_eq!(join_path("/home/u/Downloads/", "clip.mp4"), "/home/u/Downloads/clip.mp4");
    assert_eq!(join_path("/", "clip.mp4"), "/clip.mp4");
    assert_eq!(join_path("", "clip.mp4"), "clip.mp4");
}

#[test]
fn absolute_paths_begin_with_a_slash() {
    assert!(path_is_absolute("/tmp/clip.mp4"));
    assert!(path_is_absolute("/"));
    assert!(!path_is_absolute("clip.mp4"));
    assert!(!path_is_absolute("tmp/clip.mp4"));
    assert!(!path_is_absolute(""));
}

#[test]
fn split_parts_an_absolute_path() {
    assert_eq!(split_path("/tmp/out/clip.mp4"), ("/tmp/out".to_string(), "clip.mp4".to_string()));
    assert_eq!(split_path("/clip.mp4"), ("/".to_string(), "clip.mp4".to_string()));
    assert_eq!(split_path("/tmp/out/"), ("/tmp/out".to_string(), "".to_string()));
    assert_eq!(split_path("/"), ("/".to_string(), "".to_string()));
}

#[test]
fn a_name_asks_for_its_format() {
    assert_eq!(format_of_name("talk.mov"), "mov");
    assert_eq!(format_of_name("talk.tar.gz"), "gz");
    assert_eq!(format_of_name("talk"), "");
    assert_eq!(format_of_name("talk."), "");
    assert_eq!(format_of_name(""), "");
}
