//! Command lines for the inspector.
use vstd::prelude::*;
use crate::text::{string_of, trimmed};

verus! {

pub open spec fn arg_views(v: Seq<String>) -> Seq<Seq<char>> {
    v.map_values(|s: String| s@)
}

pub(crate) fn push_arg(args: &mut Vec<String>, s: &str)
    ensures
        arg_views(final(args)@) == arg_views(old(args)@).push(s@),
{
    args.push(s.to_owned());
    assert(arg_views(final(args)@) =~= arg_views(old(args)@).push(s@));
}

pub(crate) fn push_arg_chars(args: &mut Vec<String>, c: &Vec<char>)
    ensures
        arg_views(final(args)@) == arg_views(old(args)@).push(c@),
{
    args.push(string_of(c));
    assert(arg_views(final(args)@) =~= arg_views(old(args)@).push(c@));
}

/// The plain-text duration query: the container's duration field only.
pub open spec fn duration_query(input: Seq<char>) -> Seq<Seq<char>> {
    seq![
        "-v"@,
        "error"@,
        "-show_entries"@,
        "format=duration"@,
        "-of"@,
        "default=nw=1:nk=1"@,
        input,
    ]
}

/// Arguments of the duration-only query.
pub fn duration_probe_args(input: &str) -> (r: Vec<String>)
    ensures
        arg_views(r@) == duration_query(input@),
{
    let mut a: Vec<String> = Vec::new();
    push_arg(&mut a, "-v");
    push_arg(&mut a, "error");
    push_arg(&mut a, "-show_entries");
    push_arg(&mut a, "format=duration");
    push_arg(&mut a, "-of");
    push_arg(&mut a, "default=nw=1:nk=1");
    push_arg(&mut a, input);
    assert(arg_views(a@) =~= duration_query(input@));
    a
}

/// The JSON query for the audio streams (`a`) or subtitle streams (`s`),
/// with the narrowest field set that the listing needs.
pub open spec fn tracks_query(input: Seq<char>, audio: bool) -> Seq<Seq<char>> {
    seq![
        "-v"@,
        "error"@,
        "-print_format"@,
        "json"@,
        "-select_streams"@,
        if audio {
            "a"@
        } else {
            "s"@
        },
        "-probesize"@,
        "10M"@,
        "-analyzeduration"@,
        "10M"@,
        "-show_entries"@,
        if audio {
            "stream=index,codec_type,codec_name,channels:stream_tags=language,title"@
        } else {
            "stream=index,codec_type,codec_name:stream_tags=language,title"@
        },
        input,
    ]
}

/// Arguments of the audio or subtitle stream query.
pub fn tracks_probe_args(input: &str, audio: bool) -> (r: Vec<String>)
    ensures
        arg_views(r@) == tracks_query(input@, audio),
{
    let mut a: Vec<String> = Vec::new();
    push_arg(&mut a, "-v");
    push_arg(&mut a, "error");
    push_arg(&mut a, "-print_format");
    push_arg(&mut a, "json");
    push_arg(&mut a, "-select_streams");
    push_arg(&mut a, if audio { "a" } else { "s" });
    push_arg(&mut a, "-probesize");
    push_arg(&mut a, "10M");
    push_arg(&mut a, "-analyzeduration");
    push_arg(&mut a, "10M");
    push_arg(&mut a, "-show_entries");
    push_arg(
        &mut a,
        if audio {
            "stream=index,codec_type,codec_name,channels:stream_tags=language,title"
        } else {
            "stream=index,codec_type,codec_name:stream_tags=language,title"
        },
    );
    push_arg(&mut a, input);
    assert(arg_views(a@) =~= tracks_query(input@, audio));
    a
}

/// The combined JSON query: container duration and the stream fields.
pub open spec fn media_query(input: Seq<char>) -> Seq<Seq<char>> {
    seq![
        "-v"@,
        "error"@,
        "-print_format"@,
        "json"@,
        "-show_entries"@,
        "format=duration:stream=index,codec_type,codec_name,channels:stream_tags=language,title"@,
        input,
    ]
}

/// Arguments of the combined query.
pub fn media_probe_args(input: &str) -> (r: Vec<String>)
    ensures
        arg_views(r@) == media_query(input@),
{
    let mut a: Vec<String> = Vec::new();
    push_arg(&mut a, "-v");
    push_arg(&mut a, "error");
    push_arg(&mut a, "-print_format");
    push_arg(&mut a, "json");
    push_arg(&mut a, "-show_entries");
    push_arg(
        &mut a,
        "format=duration:stream=index,codec_type,codec_name,channels:stream_tags=language,title",
    );
    push_arg(&mut a, input);
    assert(arg_views(a@) =~= media_query(input@));
    a
}

/// The rotation query: the first video stream's full listing, quietly.
pub open spec fn rotation_query(input: Seq<char>) -> Seq<Seq<char>> {
    seq![
        "-v"@,
        "quiet"@,
        "-print_format"@,
        "json"@,
        "-select_streams"@,
        "v:0"@,
        "-show_streams"@,
        input,
    ]
}

/// Arguments of the rotation query.
pub fn rotation_probe_args(input: &str) -> (r: Vec<String>)
    ensures
        arg_views(r@) == rotation_query(input@),
{
    let mut a: Vec<String> = Vec::new();
    push_arg(&mut a, "-v");
    push_arg(&mut a, "quiet");
    push_arg(&mut a, "-print_format");
    push_arg(&mut a, "json");
    push_arg(&mut a, "-select_streams");
    push_arg(&mut a, "v:0");
    push_arg(&mut a, "-show_streams");
    push_arg(&mut a, input);
    assert(arg_views(a@) =~= rotation_query(input@));
    a
}

/// The keyframe query: best-effort timestamps of the first video stream's
/// keyframes inside the interval, skipping other frames.
pub open spec fn keyframe_query(input: Seq<char>, intervals: Seq<char>) -> Seq<Seq<char>> {
    seq![
        "-v"@,
        "quiet"@,
        "-select_streams"@,
        "v:0"@,
        "-skip_frame"@,
        "nokey"@,
        "-read_intervals"@,
        intervals,
        "-print_format"@,
        "json"@,
        "-show_frames"@,
        "-show_entries"@,
        "frame=best_effort_timestamp_time"@,
        input,
    ]
}

/// Arguments of the keyframe query.
pub fn keyframe_probe_args(input: &str, intervals: &str) -> (r: Vec<String>)
    ensures
        arg_views(r@) == keyframe_query(input@, intervals@),
{
    let mut a: Vec<String> = Vec::new();
    push_arg(&mut a, "-v");
    push_arg(&mut a, "quiet");
    push_arg(&mut a, "-select_streams");
    push_arg(&mut a, "v:0");
    push_arg(&mut a, "-skip_frame");
    push_arg(&mut a, "nokey");
    push_arg(&mut a, "-read_intervals");
    push_arg(&mut a, intervals);
    push_arg(&mut a, "-print_format");
    push_arg(&mut a, "json");
    push_arg(&mut a, "-show_frames");
    push_arg(&mut a, "-show_entries");
    push_arg(&mut a, "frame=best_effort_timestamp_time");
    push_arg(&mut a, input);
    assert(arg_views(a@) =~= keyframe_query(input@, intervals@));
    a
}

/// The query for an output file's duration.
pub open spec fn output_duration_query(path: Seq<char>) -> Seq<Seq<char>> {
    seq![
        "-v"@,
        "error"@,
        "-show_entries"@,
        "format=duration"@,
        "-of"@,
        "default=noprint_wrappers=1:nokey=1"@,
        path,
    ]
}

/// Arguments of the query for an output file's duration.
pub fn output_duration_probe_args(path: &str) -> (r: Vec<String>)
    ensures
        arg_views(r@) == output_duration_query(path@),
{
    let mut a: Vec<String> = Vec::new();
    push_arg(&mut a, "-v");
    push_arg(&mut a, "error");
    push_arg(&mut a, "-show_entries");
    push_arg(&mut a, "format=duration");
    push_arg(&mut a, "-of");
    push_arg(&mut a, "default=noprint_wrappers=1:nokey=1");
    push_arg(&mut a, path);
    assert(arg_views(a@) =~= output_duration_query(path@));
    a
}

/// The inspector run that warms it up: its version query, from the detected
/// tool folder or from the search path.
pub struct WarmupCall {
    pub folder: Option<String>,
    pub program: String,
    pub args: Vec<String>,
}

/// The warm-up run of the inspector.
pub fn prewarm_ffprobe(detected: Option<&str>) -> (r: WarmupCall)
    ensures
        arg_views(r.args@) == seq!["-version"@],
        match detected {
            Some(d) => if trimmed(d@).len() == 0 {
                r.folder is None && r.program@ == "ffprobe"@
            } else {
                r.folder matches Some(f) && f@ == trimmed(d@) && r.program@ == "ffprobe.exe"@
            },
            None => r.folder is None && r.program@ == "ffprobe"@,
        },
{
    let mut args: Vec<String> = Vec::new();
    push_arg(&mut args, "-version");
    assert(arg_views(args@) =~= seq!["-version"@]);
    match detected {
        Some(d) => {
            let p = crate::binaries::resolve_ffmpeg_binaries(d);
            WarmupCall { folder: p.folder, program: p.inspector, args }
        },
        None => WarmupCall { folder: None, program: "ffprobe".to_owned(), args },
    }
}

} // verus!
