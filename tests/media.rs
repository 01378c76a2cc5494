use clipwave::binaries::{
    looks_like_ffmpeg_bin_dir, looks_like_versioned_build, resolve_ffmpeg_binaries,
    resolve_ffmpeg_binaries_with_fallback, validate_ffmpeg_bin_dir, DirFacts,
};
use clipwave::error::{ConfigIssue, EngineError, ValidationIssue};
use clipwave::input::{ensure_input_file_exists, normalize_input_path_for_cli, to_wide_null_terminated};
use clipwave::probe::{inspector_failure, parse_duration_from_ffprobe_text, stderr_head_text};
use clipwave::rotation::{normalize_rotation_degrees, rotation_filter_for_degrees, rotation_from_probe_json};
use clipwave::args::{duration_probe_args, keyframe_probe_args, prewarm_ffprobe};

fn facts(exists: bool, is_dir: bool, enc: bool, insp: bool) -> DirFacts {
    DirFacts { exists, is_dir, has_encoder: enc, has_inspector: insp }
}

#[test]
fn rotation_normalization() {
    assert_eq!(normalize_rotation_degrees(-90), 270);
    assert_eq!(normalize_rotation_degrees(450), 90);
    assert_eq!(normalize_rotation_degrees(180), 180);
    assert_eq!(normalize_rotation_degrees(45), 0);
    assert_eq!(normalize_rotation_degrees(-720), 0);
    assert_eq!(rotation_filter_for_degrees(90), Some("transpose=2"));
    assert_eq!(rotation_filter_for_degrees(-180), Some("hflip,vflip"));
    assert_eq!(rotation_filter_for_degrees(270), Some("transpose=1"));
    assert_eq!(rotation_filter_for_degrees(0), None);
}

#[test]
fn rotation_from_tags_and_side_data() {
    assert_eq!(rotation_from_probe_json(br#"{"streams":[{"tags":{"rotate":"90"}}]}"#), 90);
    assert_eq!(rotation_from_probe_json(br#"{"streams":[{"tags":{"Rotate":"-90"}}]}"#), 270);
    assert_eq!(
        rotation_from_probe_json(br#"{"streams":[{"side_data_list":[{"x":1},{"rotation":0},{"rotation":-90}]}]}"#),
        270
    );
    assert_eq!(rotation_from_probe_json(br#"{"streams":[{"side_data_list":[{"rotation":"180"}]}]}"#), 180);
    assert_eq!(rotation_from_probe_json(br#"{"streams":[]}"#), 0);
    assert_eq!(rotation_from_probe_json(b"garbage"), 0);
}

#[test]
fn file_urls_become_local_paths() {
    assert_eq!(normalize_input_path_for_cli("file:///C:/My%20Videos/a.mp4"), "C:\\My Videos\\a.mp4");
    assert_eq!(normalize_input_path_for_cli("FILE://localhost/C:/x%zz"), "C:\\x%zz");
    assert_eq!(normalize_input_path_for_cli("  /tmp/x.mp4 \n"), "/tmp/x.mp4");
    assert_eq!(normalize_input_path_for_cli("file://srv/share"), "srv\\share");
}

#[test]
fn wide_strings_end_with_zero() {
    assert_eq!(to_wide_null_terminated("a\u{1F600}"), vec![97, 0xD83D, 0xDE00, 0]);
    assert_eq!(to_wide_null_terminated(""), vec![0]);
}

#[test]
fn input_checks() {
    assert_eq!(ensure_input_file_exists(false, false), Err(EngineError::Validation(ValidationIssue::InputMissing)));
    assert_eq!(ensure_input_file_exists(true, false), Err(EngineError::Validation(ValidationIssue::InputNotAFile)));
    assert!(ensure_input_file_exists(true, true).is_ok());
}

#[test]
fn bin_dir_validation() {
    let none = facts(false, false, false, false);
    assert!(validate_ffmpeg_bin_dir("  ", &none).is_ok());
    assert_eq!(validate_ffmpeg_bin_dir("/x", &none), Err(EngineError::Configuration(ConfigIssue::DirMissing)));
    assert_eq!(
        validate_ffmpeg_bin_dir("/x", &facts(true, false, true, true)),
        Err(EngineError::Configuration(ConfigIssue::NotADirectory))
    );
    let e = validate_ffmpeg_bin_dir("/x", &facts(true, true, false, true)).unwrap_err();
    assert_eq!(e.message(), "FFmpeg bin folder must contain ffmpeg.exe");
    assert_eq!(
        validate_ffmpeg_bin_dir("/x", &facts(true, true, true, false)),
        Err(EngineError::Configuration(ConfigIssue::InspectorMissing))
    );
    assert!(validate_ffmpeg_bin_dir("/x", &facts(true, true, true, true)).is_ok());
    assert!(looks_like_ffmpeg_bin_dir(&facts(true, true, true, true)));
    assert!(!looks_like_ffmpeg_bin_dir(&facts(true, true, true, false)));
}

#[test]
fn binary_resolution() {
    let p = resolve_ffmpeg_binaries("  ");
    assert_eq!((p.folder, p.encoder.as_str(), p.inspector.as_str()), (None, "ffmpeg", "ffprobe"));
    let p = resolve_ffmpeg_binaries(" C:\\ff\\bin ");
    assert_eq!(p.folder.as_deref(), Some("C:\\ff\\bin"));
    assert_eq!(p.encoder, "ffmpeg.exe");
    let (p, used) = resolve_ffmpeg_binaries_with_fallback("", Some("D:\\tools"));
    assert_eq!((p.folder.as_deref(), used.as_str()), (Some("D:\\tools"), "D:\\tools"));
    let (p, used) = resolve_ffmpeg_binaries_with_fallback(" ", None);
    assert_eq!((p.folder, used.as_str()), (None, ""));
    let (_, used) = resolve_ffmpeg_binaries_with_fallback(" E:\\b ", Some("D:\\tools"));
    assert_eq!(used, "E:\\b");
    assert!(looks_like_versioned_build("ffmpeg-7.1-essentials_build"));
    assert!(!looks_like_versioned_build("ffmpeg-7.1-full_build"));
    assert!(!looks_like_versioned_build("essentials_build-ffmpeg-"));
}

#[test]
fn inspector_text_outputs() {
    assert_eq!(parse_duration_from_ffprobe_text(b" 12.345\n"), Some(12_345_000));
    assert_eq!(parse_duration_from_ffprobe_text(b"N/A\n"), None);
    assert_eq!(parse_duration_from_ffprobe_text(b""), None);
    let long = vec![b'e'; 300];
    assert_eq!(stderr_head_text(&long).len(), 200);
    assert_eq!(stderr_head_text(b"ab\xff"), "ab\u{fffd}");
    let e = inspector_failure(b"  boom \n");
    assert_eq!(e, EngineError::Inspection("boom".to_string()));
    assert_eq!(e.message(), "ffprobe failed: boom");
    assert_eq!(inspector_failure(b"").message(), "ffprobe failed");
}

#[test]
fn inspector_arguments() {
    assert_eq!(
        duration_probe_args("a.mp4"),
        vec!["-v", "error", "-show_entries", "format=duration", "-of", "default=nw=1:nk=1", "a.mp4"]
    );
    let k = keyframe_probe_args("a.mp4", "0.000000%5.000000");
    assert_eq!(k[7], "0.000000%5.000000");
    assert_eq!(k.last().unwrap(), "a.mp4");
    let w = prewarm_ffprobe(None);
    assert_eq!((w.folder, w.program.as_str(), w.args), (None, "ffprobe", vec!["-version".to_string()]));
}
