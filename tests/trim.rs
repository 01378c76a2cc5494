use clipwave::error::{EngineError, ValidationIssue};
use clipwave::trim::{
    build_output_path, check_output_size, check_rotation_for_mode, numbered_file_name, parse_trim_mode,
    trim_result, validate_trim_request, ProgressTracker, TrimMode, TrimPlan, TrimRequest,
    MIN_OUTPUT_BYTES,
};

fn plan(mode: TrimMode, audio: i32, subtitle: i32, rotation: i32, ext: &str) -> TrimPlan {
    TrimPlan {
        input_path: "in.mkv".to_string(),
        in_us: 3_170_000,
        out_us: 10_000_000,
        mode,
        audio_order: audio,
        subtitle_index: subtitle,
        rotation,
        output_path: format!("out.{ext}"),
        output_extension: ext.to_string(),
    }
}

fn strs(v: &[&str]) -> Vec<String> {
    v.iter().map(|s| s.to_string()).collect()
}

#[test]
fn out_equal_to_in_is_refused() {
    let r = validate_trim_request("00:00:05", "00:00:05", "exact");
    assert_eq!(r, Err(EngineError::Validation(ValidationIssue::OutNotAfterIn)));
    assert_eq!(r.unwrap_err().message(), "OUT must be greater than IN");
}

#[test]
fn out_before_in_is_refused() {
    let r = validate_trim_request("00:00:06", "00:00:05.999", "lossless");
    assert_eq!(r, Err(EngineError::Validation(ValidationIssue::OutNotAfterIn)));
}

#[test]
fn valid_request_is_accepted() {
    let r = validate_trim_request("00:00:03.170", "00:00:10", "  Exact ").unwrap();
    assert_eq!(r, TrimRequest { in_us: 3_170_000, out_us: 10_000_000, mode: TrimMode::Exact });
}

#[test]
fn unknown_mode_is_refused() {
    let r = validate_trim_request("00:00:01", "00:00:02", "fast");
    assert_eq!(r, Err(EngineError::Validation(ValidationIssue::UnknownMode)));
    assert_eq!(parse_trim_mode("  LOSSLESS\n"), Ok(TrimMode::Lossless));
}

#[test]
fn lossless_rotated_input_is_refused() {
    let r = check_rotation_for_mode(TrimMode::Lossless, 90);
    assert_eq!(r, Err(EngineError::Validation(ValidationIssue::RotatedLossless(90))));
    assert_eq!(
        r.unwrap_err().message(),
        "Lossless cannot reliably preserve vertical orientation (input is rotated 90\u{b0}). Use Exact mode."
    );
    assert!(check_rotation_for_mode(TrimMode::Exact, 90).is_ok());
    assert!(check_rotation_for_mode(TrimMode::Lossless, 0).is_ok());
}

#[test]
fn exact_audio_maps_by_type_position() {
    let args = plan(TrimMode::Exact, 1, -1, 0, "mkv").encoder_args();
    let i = args.iter().position(|a| a == "0:a:1").unwrap();
    assert_eq!(args[i - 1], "-map");
    assert!(!args.iter().any(|a| a == "0:a:3"));
}

#[test]
fn lossless_arguments_in_order() {
    let args = plan(TrimMode::Lossless, 0, 2, 0, "MP4").encoder_args();
    assert_eq!(
        args,
        strs(&[
            "-v", "error", "-progress", "pipe:1", "-ss", "3.170000", "-i", "in.mkv", "-t", "6.830000",
            "-map", "0:v:0", "-map", "0:a:0", "-c", "copy", "-avoid_negative_ts", "make_zero",
            "-fflags", "+genpts", "-y", "out.MP4",
        ])
    );
}

#[test]
fn lossless_other_container_copies_timestamps() {
    let args = plan(TrimMode::Lossless, -1, -1, 0, "mkv").encoder_args();
    assert_eq!(
        args,
        strs(&[
            "-v", "error", "-progress", "pipe:1", "-ss", "3.170000", "-i", "in.mkv", "-t", "6.830000",
            "-map", "0:v:0", "-an", "-c", "copy", "-copyts", "-avoid_negative_ts", "make_zero", "-y",
            "out.mkv",
        ])
    );
}

#[test]
fn exact_arguments_with_rotation_and_subtitles() {
    let args = plan(TrimMode::Exact, 0, 3, 90, "mp4").encoder_args();
    assert_eq!(
        args,
        strs(&[
            "-v", "error", "-progress", "pipe:1", "-accurate_seek", "-ss", "3.170000", "-noautorotate",
            "-i", "in.mkv", "-t", "6.830000", "-map", "0:v:0", "-map", "0:a:0", "-map", "0:3", "-vf",
            "transpose=2", "-metadata:s:v:0", "rotate=0", "-c:v", "libx264", "-crf", "18", "-preset",
            "veryfast", "-pix_fmt", "yuv420p", "-c:a", "copy", "-c:s", "copy", "-shortest", "-y",
            "out.mp4",
        ])
    );
}

#[test]
fn progress_reports_each_change_once() {
    let mut p = ProgressTracker::new(10_000_000);
    assert_eq!(p.on_line("frame=10"), None);
    assert_eq!(p.on_line("out_time_us=2500000"), Some(25));
    assert_eq!(p.on_line("out_time_us=2500001 "), None);
    assert_eq!(p.on_line("out_time_us=N/A"), None);
    assert_eq!(p.on_line("out_time_us=99999999"), Some(100));
    assert_eq!(p.on_line("out_time_us=-5000000"), Some(-50));
    let mut z = ProgressTracker::new(0);
    assert_eq!(z.on_line("out_time_us=100"), Some(0));
}

#[test]
fn undersized_output_is_never_a_success() {
    let req = TrimRequest { in_us: 0, out_us: 1_000_000, mode: TrimMode::Lossless };
    let r = trim_result("o.mp4".to_string(), MIN_OUTPUT_BYTES - 1, req, Some(1_000_000));
    assert_eq!(r.unwrap_err(), EngineError::CorruptOutput(9_999));
    assert_eq!(check_output_size(0), Err(EngineError::CorruptOutput(0)));
    assert!(check_output_size(MIN_OUTPUT_BYTES).is_ok());
    assert!(EngineError::CorruptOutput(512).message().starts_with("Lossless cut produced invalid output (512 bytes)."));
}

#[test]
fn duration_deviation_is_warned() {
    let req = TrimRequest { in_us: 1_000_000, out_us: 12_000_000, mode: TrimMode::Lossless };
    let r = trim_result("o.mp4".to_string(), 20_000, req, Some(10_000_000)).unwrap();
    assert_eq!(r.requested_duration_us, 11_000_000);
    assert_eq!(
        r.duration_warning.unwrap(),
        "Output duration is 10.0s (requested 11.0s, difference 1.0s). Lossless cuts can only split on keyframes, so the result may be slightly shorter or longer."
    );
    let ok = trim_result("o.mp4".to_string(), 20_000, req, Some(11_400_000)).unwrap();
    assert_eq!(ok.duration_warning, None);
    let none = trim_result("o.mp4".to_string(), 20_000, req, None).unwrap();
    assert_eq!(none.actual_duration_us, None);
}

#[test]
fn output_names() {
    let o = build_output_path(Some("/v"), Some("clip"), Some("mkv"), TrimMode::Exact, "00:01:02.5", "00:02:00").unwrap();
    assert_eq!(o.folder, "/v");
    assert_eq!(o.file_name, "clip_clip_exact_00h01h02.5_00h02h00.mkv");
    let n = build_output_path(Some("/v"), Some("a"), None, TrimMode::Lossless, "0:00:01", "0:00:02").unwrap();
    assert_eq!(n.file_name, "a_clip_lossless_0h00h01_0h00h02.mp4");
    assert_eq!(
        build_output_path(None, Some("a"), None, TrimMode::Exact, "", "").unwrap_err(),
        EngineError::Validation(ValidationIssue::NoInputFolder)
    );
    assert_eq!(
        build_output_path(Some("/"), None, None, TrimMode::Exact, "", "").unwrap_err(),
        EngineError::Validation(ValidationIssue::NoInputName)
    );
    assert_eq!(numbered_file_name("clip", "mp4", 12), "clip (12).mp4");
}
