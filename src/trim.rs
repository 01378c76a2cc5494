//! Planning a trim: validating the request, naming the output, building the
//! encoder's arguments, following its progress and judging its output.
use vstd::prelude::*;
use crate::args::{arg_views, push_arg, push_arg_chars};
use crate::error::{EngineError, ValidationIssue};
use crate::keyframes::MAX_TIMESTAMP_US;
use crate::rotation::{rotation_filter, rotation_filter_for_degrees};
use crate::text::{
    chars_from, chars_of, decimal, i64_of, push_decimal, lowercase_text, lowercased, micros_text, parse_i64, push_micros,
    push_signed_decimal, push_str, push_tenths, signed_decimal, starts_with_text, string_of,
    tenths_text, text_is, trim_text, trimmed,
};
use crate::time::{filename_time, parse_hh_mm_ss_with_millis, parsed_time, time_for_filename};

verus! {

/// How a trim is made.
#[derive(PartialEq, Eq, Structural, Debug, Clone, Copy)]
pub enum TrimMode {
    /// Stream copy: fast, but cuts can start only at keyframes.
    Lossless,
    /// Re-encode: frame-accurate.
    Exact,
}

/// The mode that a request names: `lossless` or `exact`, in any case, with
/// surrounding whitespace.
pub open spec fn mode_named(s: Seq<char>) -> Option<TrimMode> {
    let m = lowercased(trimmed(s));
    if m == "lossless"@ {
        Some(TrimMode::Lossless)
    } else if m == "exact"@ {
        Some(TrimMode::Exact)
    } else {
        None
    }
}

pub open spec fn mode_name(m: TrimMode) -> Seq<char> {
    match m {
        TrimMode::Lossless => "lossless"@,
        TrimMode::Exact => "exact"@,
    }
}

/// Reads the mode that a request names.
pub fn parse_trim_mode(mode: &str) -> (r: Result<TrimMode, EngineError>)
    ensures
        match mode_named(mode@) {
            Some(m) => r == Ok::<TrimMode, EngineError>(m),
            None => r == Err::<TrimMode, EngineError>(
                EngineError::Validation(ValidationIssue::UnknownMode),
            ),
        },
{
    let lower = lowercase_text(trim_text(mode));
    let c = chars_of(lower.as_str());
    if text_is(&c, "lossless") {
        Ok(TrimMode::Lossless)
    } else if text_is(&c, "exact") {
        Ok(TrimMode::Exact)
    } else {
        Err(EngineError::Validation(ValidationIssue::UnknownMode))
    }
}

/// A trim request that passed validation.
#[derive(PartialEq, Eq, Structural, Debug, Clone, Copy)]
pub struct TrimRequest {
    pub in_us: i64,
    pub out_us: i64,
    pub mode: TrimMode,
}

/// The outcome of validating the times and mode of a trim: each time must
/// parse, the out-time must be later than the in-time, and the mode must be
/// known, checked in that order.
pub open spec fn validated_request(in_time: Seq<char>, out_time: Seq<char>, mode: Seq<char>) -> Result<
    TrimRequest,
    ValidationIssue,
> {
    match parsed_time(in_time) {
        Err(e) => Err(e),
        Ok(a) => match parsed_time(out_time) {
            Err(e) => Err(e),
            Ok(b) => if b <= a {
                Err(ValidationIssue::OutNotAfterIn)
            } else {
                match mode_named(mode) {
                    None => Err(ValidationIssue::UnknownMode),
                    Some(m) => Ok(TrimRequest { in_us: a, out_us: b, mode: m }),
                }
            },
        },
    }
}

/// Validates the times and mode of a trim request. Nothing is run before
/// this succeeds.
pub fn validate_trim_request(in_time: &str, out_time: &str, mode: &str) -> (r: Result<
    TrimRequest,
    EngineError,
>)
    ensures
        match validated_request(in_time@, out_time@, mode@) {
            Ok(q) => r == Ok::<TrimRequest, EngineError>(q),
            Err(e) => r == Err::<TrimRequest, EngineError>(EngineError::Validation(e)),
        },
        r matches Ok(q) ==> 0 <= q.in_us < q.out_us <= MAX_TIMESTAMP_US,
{
    let in_us = parse_hh_mm_ss_with_millis(in_time)?;
    let out_us = parse_hh_mm_ss_with_millis(out_time)?;
    if out_us <= in_us {
        return Err(EngineError::Validation(ValidationIssue::OutNotAfterIn));
    }
    let mode = parse_trim_mode(mode)?;
    Ok(TrimRequest { in_us, out_us, mode })
}

/// A cut whose out-time is not after its in-time is refused.
pub proof fn out_time_must_follow_in_time(in_time: Seq<char>, out_time: Seq<char>, mode: Seq<char>)
    requires
        parsed_time(in_time) is Ok,
        parsed_time(out_time) is Ok,
        parsed_time(out_time)->Ok_0 <= parsed_time(in_time)->Ok_0,
    ensures
        validated_request(in_time, out_time, mode) == Err::<TrimRequest, ValidationIssue>(
            ValidationIssue::OutNotAfterIn,
        ),
{
}

/// Refuses a lossless trim of a rotated input: stream copy cannot reorient.
pub fn check_rotation_for_mode(mode: TrimMode, rotation: i32) -> (r: Result<(), EngineError>)
    ensures
        mode == TrimMode::Lossless && rotation != 0 ==> r == Err::<(), EngineError>(
            EngineError::Validation(ValidationIssue::RotatedLossless(rotation)),
        ),
        !(mode == TrimMode::Lossless && rotation != 0) ==> r is Ok,
{
    if mode == TrimMode::Lossless && rotation != 0 {
        Err(EngineError::Validation(ValidationIssue::RotatedLossless(rotation)))
    } else {
        Ok(())
    }
}

/// Everything that one encoder run needs.
#[derive(Debug, Clone)]
pub struct TrimPlan {
    pub input_path: String,
    pub in_us: i64,
    pub out_us: i64,
    pub mode: TrimMode,
    /// The audio stream's position among the audio streams; negative for none.
    pub audio_order: i32,
    /// The subtitle stream's global index; negative for none.
    pub subtitle_index: i32,
    /// The input's display rotation in degrees.
    pub rotation: i32,
    pub output_path: String,
    /// The output file's extension, which decides the timestamp handling.
    pub output_extension: String,
}

/// The timestamp flags of a lossless cut: MP4-family containers avoid
/// negative timestamps and regenerate presentation timestamps; others keep
/// the input's timestamps and avoid negative ones.
pub open spec fn container_flags(ext: Seq<char>) -> Seq<Seq<char>> {
    let e = lowercased(ext);
    if e == "mp4"@ || e == "m4v"@ || e == "mov"@ {
        seq!["-avoid_negative_ts"@, "make_zero"@, "-fflags"@, "+genpts"@]
    } else {
        seq!["-copyts"@, "-avoid_negative_ts"@, "make_zero"@]
    }
}

pub open spec fn when(c: bool, s: Seq<Seq<char>>) -> Seq<Seq<char>> {
    if c {
        s
    } else {
        Seq::empty()
    }
}

/// The seek, input and duration arguments.
pub open spec fn head_arguments(input: Seq<char>, in_us: i64, out_us: i64, mode: TrimMode, rotation: i32) -> Seq<Seq<char>> {
    let dur = micros_text(out_us - in_us);
    match mode {
        TrimMode::Lossless => seq![
            "-v"@,
            "error"@,
            "-progress"@,
            "pipe:1"@,
            "-ss"@,
            micros_text(in_us as int),
            "-i"@,
            input,
            "-t"@,
            dur,
        ],
        TrimMode::Exact => seq![
            "-v"@,
            "error"@,
            "-progress"@,
            "pipe:1"@,
            "-accurate_seek"@,
            "-ss"@,
            micros_text(in_us as int),
        ] + when(rotation_filter(rotation as int) is Some, seq!["-noautorotate"@]) + seq![
            "-i"@,
            input,
            "-t"@,
            dur,
        ],
    }
}

/// The stream mapping: the first video stream, the selected audio stream by
/// its position among audio streams (or no audio), and when re-encoding the
/// selected subtitle stream by global index.
pub open spec fn map_arguments(mode: TrimMode, audio: i32, subtitle: i32) -> Seq<Seq<char>> {
    seq!["-map"@, "0:v:0"@] + (if audio < 0 {
        seq!["-an"@]
    } else {
        seq!["-map"@, "0:a:"@ + signed_decimal(audio as int)]
    }) + when(
        subtitle >= 0 && mode == TrimMode::Exact,
        seq!["-map"@, "0:"@ + signed_decimal(subtitle as int)],
    )
}

/// The codec arguments: stream copy with container timestamp flags, or a
/// fixed re-encode of the video with the rotation corrected, audio and
/// subtitles copied, and the output cut to the shortest stream when
/// subtitles are kept.
pub open spec fn codec_arguments(mode: TrimMode, audio: i32, subtitle: i32, rotation: i32, ext: Seq<char>) -> Seq<Seq<char>> {
    match mode {
        TrimMode::Lossless => seq!["-c"@, "copy"@] + container_flags(ext) + when(
            rotation != 0,
            seq!["-metadata:s:v:0"@, "rotate="@ + signed_decimal(rotation as int)],
        ),
        TrimMode::Exact => (match rotation_filter(rotation as int) {
            Some(f) => seq!["-vf"@, f, "-metadata:s:v:0"@, "rotate=0"@],
            None => Seq::empty(),
        }) + seq![
            "-c:v"@,
            "libx264"@,
            "-crf"@,
            "18"@,
            "-preset"@,
            "veryfast"@,
            "-pix_fmt"@,
            "yuv420p"@,
        ] + when(audio >= 0, seq!["-c:a"@, "copy"@]) + when(
            subtitle >= 0,
            seq!["-c:s"@, "copy"@, "-shortest"@],
        ),
    }
}

/// The encoder's arguments for a plan. Both modes seek before the input;
/// lossless copies the streams and counts the duration from the seek point,
/// exact seeks accurately and re-encodes the video.
pub open spec fn encoder_arguments(
    input: Seq<char>,
    in_us: i64,
    out_us: i64,
    mode: TrimMode,
    audio: i32,
    subtitle: i32,
    rotation: i32,
    output: Seq<char>,
    ext: Seq<char>,
) -> Seq<Seq<char>> {
    head_arguments(input, in_us, out_us, mode, rotation) + map_arguments(mode, audio, subtitle)
        + codec_arguments(mode, audio, subtitle, rotation, ext) + seq!["-y"@, output]
}

fn micros_chars(us: i64) -> (r: Vec<char>)
    ensures
        r@ == micros_text(us as int),
{
    let mut c: Vec<char> = Vec::new();
    push_micros(&mut c, us);
    assert(c@ =~= micros_text(us as int));
    c
}

fn prefixed_number(prefix: &str, v: i32) -> (r: Vec<char>)
    ensures
        r@ == prefix@ + signed_decimal(v as int),
{
    let mut c: Vec<char> = Vec::new();
    push_str(&mut c, prefix);
    push_signed_decimal(&mut c, v as i64);
    assert(c@ =~= prefix@ + signed_decimal(v as int));
    c
}

fn is_mp4_family(ext: &str) -> (r: bool)
    ensures
        r == (lowercased(ext@) == "mp4"@ || lowercased(ext@) == "m4v"@ || lowercased(ext@) == "mov"@),
{
    let e = lowercase_text(ext);
    let c = chars_of(e.as_str());
    text_is(&c, "mp4") || text_is(&c, "m4v") || text_is(&c, "mov")
}

fn push_head(a: &mut Vec<String>, input: &str, in_us: i64, out_us: i64, mode: TrimMode, rotation: i32)
    requires
        0 <= in_us < out_us <= MAX_TIMESTAMP_US,
    ensures
        arg_views(final(a)@) == arg_views(old(a)@) + head_arguments(input@, in_us, out_us, mode, rotation),
{
    let filter = rotation_filter_for_degrees(rotation);
    let in_arg = micros_chars(in_us);
    let dur_arg = micros_chars(out_us - in_us);
    push_arg(a, "-v");
    push_arg(a, "error");
    push_arg(a, "-progress");
    push_arg(a, "pipe:1");
    if mode == TrimMode::Exact {
        push_arg(a, "-accurate_seek");
    }
    push_arg(a, "-ss");
    push_arg_chars(a, &in_arg);
    if mode == TrimMode::Exact && filter.is_some() {
        push_arg(a, "-noautorotate");
    }
    push_arg(a, "-i");
    push_arg(a, input);
    push_arg(a, "-t");
    push_arg_chars(a, &dur_arg);
    assert(arg_views(final(a)@) =~= arg_views(old(a)@) + head_arguments(input@, in_us, out_us, mode, rotation));
}

fn push_maps(a: &mut Vec<String>, mode: TrimMode, audio: i32, subtitle: i32)
    ensures
        arg_views(final(a)@) == arg_views(old(a)@) + map_arguments(mode, audio, subtitle),
{
    push_arg(a, "-map");
    push_arg(a, "0:v:0");
    if audio < 0 {
        push_arg(a, "-an");
    } else {
        push_arg(a, "-map");
        push_arg_chars(a, &prefixed_number("0:a:", audio));
    }
    if subtitle >= 0 && mode == TrimMode::Exact {
        push_arg(a, "-map");
        push_arg_chars(a, &prefixed_number("0:", subtitle));
    }
    assert(arg_views(final(a)@) =~= arg_views(old(a)@) + map_arguments(mode, audio, subtitle));
}

fn push_copy_codecs(a: &mut Vec<String>, rotation: i32, ext: &str)
    ensures
        arg_views(final(a)@) == arg_views(old(a)@) + codec_arguments(TrimMode::Lossless, 0, 0, rotation, ext@),
{
    push_arg(a, "-c");
    push_arg(a, "copy");
    if is_mp4_family(ext) {
        push_arg(a, "-avoid_negative_ts");
        push_arg(a, "make_zero");
        push_arg(a, "-fflags");
        push_arg(a, "+genpts");
    } else {
        push_arg(a, "-copyts");
        push_arg(a, "-avoid_negative_ts");
        push_arg(a, "make_zero");
    }
    if rotation != 0 {
        push_arg(a, "-metadata:s:v:0");
        push_arg_chars(a, &prefixed_number("rotate=", rotation));
    }
    assert(arg_views(final(a)@) =~= arg_views(old(a)@) + codec_arguments(TrimMode::Lossless, 0, 0, rotation, ext@));
}

fn push_encode_codecs(a: &mut Vec<String>, audio: i32, subtitle: i32, rotation: i32)
    ensures
        forall|e: Seq<char>| arg_views(final(a)@) == arg_views(old(a)@) + codec_arguments(TrimMode::Exact, audio, subtitle, rotation, e),
{
    match rotation_filter_for_degrees(rotation) {
        Some(f) => {
            push_arg(a, "-vf");
            push_arg(a, f);
            push_arg(a, "-metadata:s:v:0");
            push_arg(a, "rotate=0");
        },
        None => {},
    }
    push_arg(a, "-c:v");
    push_arg(a, "libx264");
    push_arg(a, "-crf");
    push_arg(a, "18");
    push_arg(a, "-preset");
    push_arg(a, "veryfast");
    push_arg(a, "-pix_fmt");
    push_arg(a, "yuv420p");
    if audio >= 0 {
        push_arg(a, "-c:a");
        push_arg(a, "copy");
    }
    if subtitle >= 0 {
        push_arg(a, "-c:s");
        push_arg(a, "copy");
        push_arg(a, "-shortest");
    }
    assert forall|e: Seq<char>| arg_views(final(a)@) == arg_views(old(a)@) + codec_arguments(TrimMode::Exact, audio, subtitle, rotation, e) by {
        assert(arg_views(final(a)@) =~= arg_views(old(a)@) + codec_arguments(TrimMode::Exact, audio, subtitle, rotation, e));
    }
}

impl TrimPlan {
    /// The encoder's arguments, in the order that makes the cut correct.
    pub fn encoder_args(&self) -> (r: Vec<String>)
        requires
            0 <= self.in_us < self.out_us <= MAX_TIMESTAMP_US,
        ensures
            arg_views(r@) == encoder_arguments(
                self.input_path@,
                self.in_us,
                self.out_us,
                self.mode,
                self.audio_order,
                self.subtitle_index,
                self.rotation,
                self.output_path@,
                self.output_extension@,
            ),
    {
        let mut a: Vec<String> = Vec::new();
        push_head(&mut a, self.input_path.as_str(), self.in_us, self.out_us, self.mode, self.rotation);
        push_maps(&mut a, self.mode, self.audio_order, self.subtitle_index);
        match self.mode {
            TrimMode::Lossless => push_copy_codecs(&mut a, self.rotation, self.output_extension.as_str()),
            TrimMode::Exact => push_encode_codecs(&mut a, self.audio_order, self.subtitle_index, self.rotation),
        }
        push_arg(&mut a, "-y");
        push_arg(&mut a, self.output_path.as_str());
        assert(arg_views(a@) =~= encoder_arguments(
            self.input_path@,
            self.in_us,
            self.out_us,
            self.mode,
            self.audio_order,
            self.subtitle_index,
            self.rotation,
            self.output_path@,
            self.output_extension@,
        ));
        a
    }
}


/// Rounds `x / d` to the nearest integer, halves away from zero.
pub open spec fn rounded_ratio(x: int, d: int) -> int {
    if x >= 0 {
        (2 * x + d) / (2 * d)
    } else {
        -((-2 * x + d) / (2 * d))
    }
}

/// The percentage of the requested duration that an output position
/// reaches: rounded, at most 100, and 0 when the duration is not positive.
pub open spec fn progress_percent(us: i64, duration_us: i64) -> i32 {
    if duration_us <= 0 {
        0
    } else {
        let p = rounded_ratio(us * 100, duration_us as int);
        let q = if p > 100 {
            100
        } else {
            p
        };
        if q < i32::MIN {
            i32::MIN
        } else {
            q as i32
        }
    }
}

/// The output position, in microseconds, that an encoder progress line
/// reports: the integer after `out_time_us=`, with surrounding whitespace.
pub open spec fn progress_value(line: Seq<char>) -> Option<i64> {
    let key = "out_time_us="@;
    if key.len() <= line.len() && line.take(key.len() as int) == key {
        i64_of(trimmed(line.skip(key.len() as int)))
    } else {
        None
    }
}

fn percent_of(us: i64, duration_us: i64) -> (r: i32)
    ensures
        r == progress_percent(us, duration_us),
{
    if duration_us <= 0 {
        return 0;
    }
    let x: i128 = us as i128 * 100;
    let d: i128 = duration_us as i128;
    let p: i128 = if x >= 0 {
        (2 * x + d) / (2 * d)
    } else {
        -((-2 * x + d) / (2 * d))
    };
    let q: i128 = if p > 100 {
        100
    } else {
        p
    };
    if q < i32::MIN as i128 {
        i32::MIN
    } else {
        q as i32
    }
}

/// Follows the encoder's progress lines and reports each change of the
/// integer percentage once.
#[derive(PartialEq, Eq, Structural, Debug, Clone, Copy)]
pub struct ProgressTracker {
    pub duration_us: i64,
    /// The percentage reported last; -1 before the first report.
    pub last_percent: i32,
}

impl ProgressTracker {
    pub fn new(duration_us: i64) -> (r: ProgressTracker)
        ensures
            r.duration_us == duration_us,
            r.last_percent == -1,
    {
        ProgressTracker { duration_us, last_percent: -1 }
    }

    /// Takes one line of the encoder's progress output; returns the new
    /// percentage where the line reports a position and the percentage
    /// changed.
    pub fn on_line(&mut self, line: &str) -> (r: Option<i32>)
        ensures
            final(self).duration_us == old(self).duration_us,
            match progress_value(line@) {
                None => r is None && final(self).last_percent == old(self).last_percent,
                Some(us) => {
                    let p = progress_percent(us, old(self).duration_us);
                    if p != old(self).last_percent {
                        r == Some(p) && final(self).last_percent == p
                    } else {
                        r is None && final(self).last_percent == old(self).last_percent
                    }
                },
            },
    {
        let c = chars_of(line);
        let key = chars_of("out_time_us=");
        if !starts_with_text(&c, "out_time_us=") {
            return None;
        }
        let rest = string_of(&chars_from(&c, key.len()));
        let value = parse_i64(&chars_of(trim_text(rest.as_str())));
        match value {
            None => None,
            Some(us) => {
                let p = percent_of(us, self.duration_us);
                if p != self.last_percent {
                    self.last_percent = p;
                    Some(p)
                } else {
                    None
                }
            },
        }
    }
}

/// Outputs smaller than this many bytes are taken as corrupt.
pub const MIN_OUTPUT_BYTES: u64 = 10_000;

/// A deviation of the output's duration beyond this many microseconds is
/// reported.
pub const DURATION_TOLERANCE_US: i64 = 500_000;

/// Checks the size of the encoder's output. An error here means the file is
/// to be deleted.
pub fn check_output_size(size_bytes: u64) -> (r: Result<(), EngineError>)
    ensures
        size_bytes < MIN_OUTPUT_BYTES ==> r == Err::<(), EngineError>(
            EngineError::CorruptOutput(size_bytes),
        ),
        size_bytes >= MIN_OUTPUT_BYTES ==> r is Ok,
{
    if size_bytes < MIN_OUTPUT_BYTES {
        Err(EngineError::CorruptOutput(size_bytes))
    } else {
        Ok(())
    }
}

/// A finished trim.
#[derive(Debug, Clone)]
pub struct TrimResult {
    pub output_path: String,
    pub requested_duration_us: i64,
    pub actual_duration_us: Option<i64>,
    pub duration_warning: Option<String>,
}

pub open spec fn clamped_i64(v: int) -> i64 {
    if v > i64::MAX {
        i64::MAX
    } else {
        v as i64
    }
}

/// The warning for an output whose duration deviates from the requested one
/// by more than the tolerance.
pub open spec fn duration_warning_text(actual: i64, requested: i64) -> Option<Seq<char>> {
    let diff = if actual >= requested {
        actual - requested
    } else {
        requested - actual
    };
    if diff > DURATION_TOLERANCE_US {
        Some(
            "Output duration is "@ + tenths_text(actual as int) + "s (requested "@ + tenths_text(
                requested as int,
            ) + "s, difference "@ + tenths_text(clamped_i64(diff) as int)
                + "s). Lossless cuts can only split on keyframes, so the result may be slightly shorter or longer."@,
        )
    } else {
        None
    }
}

fn duration_warning(actual: i64, requested: i64) -> (r: Option<String>)
    ensures
        match r {
            Some(w) => duration_warning_text(actual, requested) == Some(w@),
            None => duration_warning_text(actual, requested) is None,
        },
{
    let diff: i128 = if actual >= requested {
        actual as i128 - requested as i128
    } else {
        requested as i128 - actual as i128
    };
    if diff > DURATION_TOLERANCE_US as i128 {
        let d: i64 = if diff > i64::MAX as i128 {
            i64::MAX
        } else {
            diff as i64
        };
        let mut out: Vec<char> = Vec::new();
        push_str(&mut out, "Output duration is ");
        push_tenths(&mut out, actual);
        push_str(&mut out, "s (requested ");
        push_tenths(&mut out, requested);
        push_str(&mut out, "s, difference ");
        push_tenths(&mut out, d);
        push_str(
            &mut out,
            "s). Lossless cuts can only split on keyframes, so the result may be slightly shorter or longer.",
        );
        assert(out@ =~= duration_warning_text(actual, requested)->Some_0);
        Some(string_of(&out))
    } else {
        None
    }
}

/// The result of a trim whose encoder run succeeded, from the output's size
/// and measured duration. An undersized output is never a success: it is
/// reported as corrupt, and the file is to be deleted.
pub fn trim_result(
    output_path: String,
    output_size: u64,
    request: TrimRequest,
    actual_duration_us: Option<i64>,
) -> (r: Result<TrimResult, EngineError>)
    requires
        0 <= request.in_us < request.out_us,
    ensures
        output_size < MIN_OUTPUT_BYTES ==> r == Err::<TrimResult, EngineError>(
            EngineError::CorruptOutput(output_size),
        ),
        output_size >= MIN_OUTPUT_BYTES ==> (r matches Ok(t) && t.output_path@ == output_path@
            && t.requested_duration_us == request.out_us - request.in_us && t.actual_duration_us
            == actual_duration_us && match actual_duration_us {
            Some(a) => match t.duration_warning {
                Some(w) => duration_warning_text(a, t.requested_duration_us) == Some(w@),
                None => duration_warning_text(a, t.requested_duration_us) is None,
            },
            None => t.duration_warning is None,
        }),
{
    check_output_size(output_size)?;
    let requested = request.out_us - request.in_us;
    let warning = match actual_duration_us {
        Some(a) => duration_warning(a, requested),
        None => None,
    };
    Ok(TrimResult {
        output_path,
        requested_duration_us: requested,
        actual_duration_us,
        duration_warning: warning,
    })
}

/// Where a trim's output goes: a folder, and a file name in it.
#[derive(Debug, Clone)]
pub struct OutputName {
    pub folder: String,
    pub file_name: String,
}

/// The output file name: the input's stem, the mode, the two times written
/// for a file name, and the input's extension (`mp4` where it has none).
pub open spec fn output_file_name(
    stem: Seq<char>,
    ext: Option<Seq<char>>,
    mode: TrimMode,
    in_time: Seq<char>,
    out_time: Seq<char>,
) -> Seq<char> {
    stem + "_clip_"@ + mode_name(mode) + "_"@ + filename_time(in_time) + "_"@ + filename_time(
        out_time,
    ) + "."@ + match ext {
        Some(e) => e,
        None => "mp4"@,
    }
}

/// Names the output of a trim, next to the input, from the parts of the
/// input path: its folder, its file stem and its extension.
pub fn build_output_path(
    folder: Option<&str>,
    stem: Option<&str>,
    extension: Option<&str>,
    mode: TrimMode,
    in_time: &str,
    out_time: &str,
) -> (r: Result<OutputName, EngineError>)
    ensures
        folder is None ==> r == Err::<OutputName, EngineError>(
            EngineError::Validation(ValidationIssue::NoInputFolder),
        ),
        folder is Some && stem is None ==> r == Err::<OutputName, EngineError>(
            EngineError::Validation(ValidationIssue::NoInputName),
        ),
        folder is Some && stem is Some ==> (r matches Ok(o) && o.folder@ == folder->Some_0@
            && o.file_name@ == output_file_name(
            stem->Some_0@,
            match extension {
                Some(e) => Some(e@),
                None => None,
            },
            mode,
            in_time@,
            out_time@,
        )),
{
    let folder = match folder {
        Some(f) => f,
        None => {
            return Err(EngineError::Validation(ValidationIssue::NoInputFolder));
        },
    };
    let stem = match stem {
        Some(s) => s,
        None => {
            return Err(EngineError::Validation(ValidationIssue::NoInputName));
        },
    };
    let mut out: Vec<char> = Vec::new();
    push_str(&mut out, stem);
    push_str(&mut out, "_clip_");
    match mode {
        TrimMode::Lossless => push_str(&mut out, "lossless"),
        TrimMode::Exact => push_str(&mut out, "exact"),
    }
    push_str(&mut out, "_");
    let a = time_for_filename(in_time);
    push_str(&mut out, a.as_str());
    push_str(&mut out, "_");
    let b = time_for_filename(out_time);
    push_str(&mut out, b.as_str());
    push_str(&mut out, ".");
    match extension {
        Some(e) => push_str(&mut out, e),
        None => push_str(&mut out, "mp4"),
    }
    assert(out@ =~= output_file_name(
        stem@,
        match extension {
            Some(e) => Some(e@),
            None => None,
        },
        mode,
        in_time@,
        out_time@,
    ));
    Ok(OutputName { folder: folder.to_owned(), file_name: string_of(&out) })
}

/// How many numbered alternatives are tried when the output name is taken.
pub const MAX_NUMBERED_OUTPUTS: u32 = 999;

/// The `i`-th alternative file name, `stem (i).ext`.
pub fn numbered_file_name(stem: &str, ext: &str, i: u32) -> (r: String)
    ensures
        r@ == stem@ + " ("@ + decimal(i as nat) + ")."@ + ext@,
{
    let mut out: Vec<char> = Vec::new();
    push_str(&mut out, stem);
    push_str(&mut out, " (");
    push_decimal(&mut out, i as u64);
    push_str(&mut out, ").");
    push_str(&mut out, ext);
    assert(out@ =~= stem@ + " ("@ + decimal(i as nat) + ")."@ + ext@);
    string_of(&out)
}

} // verus!
