//! The errors that the engine reports to its caller.
use vstd::prelude::*;
use crate::text::{decimal, push_decimal, push_signed_decimal, push_str, signed_decimal, string_of};

verus! {

/// A misconfigured tool directory.
#[derive(PartialEq, Eq, Structural, Debug, Clone, Copy)]
pub enum ConfigIssue {
    DirMissing,
    NotADirectory,
    EncoderMissing,
    InspectorMissing,
}

/// A request that is refused before any process starts.
#[derive(PartialEq, Eq, Structural, Debug, Clone, Copy)]
pub enum ValidationIssue {
    InputMissing,
    InputNotAFile,
    TimeFormat,
    Hours,
    Minutes,
    Seconds,
    TimeRange,
    OutNotAfterIn,
    UnknownMode,
    RotatedLossless(i32),
    NoInputFolder,
    NoInputName,
}

/// Output of the inspector that could not be read.
#[derive(PartialEq, Eq, Debug, Clone)]
pub enum ParseIssue {
    InvalidJson(String),
    MissingStreamIndex,
}

/// One of the two external tools.
#[derive(PartialEq, Eq, Structural, Debug, Clone, Copy)]
pub enum Tool {
    Encoder,
    Inspector,
}

#[derive(PartialEq, Eq, Debug, Clone)]
pub enum EngineError {
    Configuration(ConfigIssue),
    Validation(ValidationIssue),
    /// The tool could not be started; `not_found` when its executable is missing.
    Execution { tool: Tool, not_found: bool, detail: String },
    /// The inspector exited with failure; the trimmed start of its diagnostics.
    Inspection(String),
    /// The encoder exited with failure; the trimmed start of its diagnostics.
    Encoding(String),
    Parse(ParseIssue),
    /// The trimmed output was this many bytes, too few to be a usable file.
    CorruptOutput(u64),
}

pub open spec fn tool_name(t: Tool) -> Seq<char> {
    match t {
        Tool::Encoder => "ffmpeg"@,
        Tool::Inspector => "ffprobe"@,
    }
}

pub open spec fn failure_text(t: Tool, detail: Seq<char>) -> Seq<char> {
    if detail.len() == 0 {
        tool_name(t) + " failed"@
    } else {
        tool_name(t) + " failed: "@ + detail
    }
}

pub open spec fn validation_text(v: ValidationIssue) -> Seq<char> {
    match v {
        ValidationIssue::InputMissing => "Input file does not exist"@,
        ValidationIssue::InputNotAFile => "Input path is not a file"@,
        ValidationIssue::TimeFormat => "Time must be in format hh:mm:ss or hh:mm:ss.milliseconds"@,
        ValidationIssue::Hours => "Invalid hours"@,
        ValidationIssue::Minutes => "Invalid minutes (must be 2 digits)"@,
        ValidationIssue::Seconds => "Invalid seconds"@,
        ValidationIssue::TimeRange => "Minutes and seconds must be < 60"@,
        ValidationIssue::OutNotAfterIn => "OUT must be greater than IN"@,
        ValidationIssue::UnknownMode => "Mode must be 'lossless' or 'exact'"@,
        ValidationIssue::RotatedLossless(d) => "Lossless cannot reliably preserve vertical orientation (input is rotated "@
            + signed_decimal(d as int) + "\u{b0}). Use Exact mode."@,
        ValidationIssue::NoInputFolder => "Could not determine input folder"@,
        ValidationIssue::NoInputName => "Could not determine input filename"@,
    }
}

/// The message shown to the user for an error.
pub open spec fn error_text(e: EngineError) -> Seq<char> {
    match e {
        EngineError::Configuration(c) => match c {
            ConfigIssue::DirMissing => "FFmpeg bin folder does not exist"@,
            ConfigIssue::NotADirectory => "FFmpeg bin folder is not a directory"@,
            ConfigIssue::EncoderMissing => "FFmpeg bin folder must contain ffmpeg.exe"@,
            ConfigIssue::InspectorMissing => "FFmpeg bin folder must contain ffprobe.exe"@,
        },
        EngineError::Validation(v) => validation_text(v),
        EngineError::Execution { tool, not_found, detail } => if not_found {
            "Failed to run "@ + tool_name(tool) + ": program not found (set FFmpeg bin folder or add "@
                + tool_name(tool) + " to PATH)"@
        } else {
            "Failed to run "@ + tool_name(tool) + ": "@ + detail@
        },
        EngineError::Inspection(d) => failure_text(Tool::Inspector, d@),
        EngineError::Encoding(d) => failure_text(Tool::Encoder, d@),
        EngineError::Parse(p) => match p {
            ParseIssue::InvalidJson(d) => "Invalid ffprobe JSON: "@ + d@,
            ParseIssue::MissingStreamIndex => "ffprobe stream missing index"@,
        },
        EngineError::CorruptOutput(n) => "Lossless cut produced invalid output ("@ + decimal(n as nat)
            + " bytes). This usually happens when the cut point is not near a keyframe. Try using 'Exact' mode instead, or adjust the cut times to be closer to a keyframe."@,
    }
}

fn push_tool(out: &mut Vec<char>, t: Tool)
    ensures
        final(out)@ == old(out)@ + tool_name(t),
{
    match t {
        Tool::Encoder => push_str(out, "ffmpeg"),
        Tool::Inspector => push_str(out, "ffprobe"),
    }
}

fn push_validation(out: &mut Vec<char>, v: ValidationIssue)
    ensures
        final(out)@ == old(out)@ + validation_text(v),
{
    match v {
        ValidationIssue::InputMissing => push_str(out, "Input file does not exist"),
        ValidationIssue::InputNotAFile => push_str(out, "Input path is not a file"),
        ValidationIssue::TimeFormat => push_str(
            out,
            "Time must be in format hh:mm:ss or hh:mm:ss.milliseconds",
        ),
        ValidationIssue::Hours => push_str(out, "Invalid hours"),
        ValidationIssue::Minutes => push_str(out, "Invalid minutes (must be 2 digits)"),
        ValidationIssue::Seconds => push_str(out, "Invalid seconds"),
        ValidationIssue::TimeRange => push_str(out, "Minutes and seconds must be < 60"),
        ValidationIssue::OutNotAfterIn => push_str(out, "OUT must be greater than IN"),
        ValidationIssue::UnknownMode => push_str(out, "Mode must be 'lossless' or 'exact'"),
        ValidationIssue::RotatedLossless(d) => {
            push_str(
                out,
                "Lossless cannot reliably preserve vertical orientation (input is rotated ",
            );
            push_signed_decimal(out, d as i64);
            push_str(out, "\u{b0}). Use Exact mode.");
            assert(final(out)@ =~= old(out)@ + validation_text(v));
        },
        ValidationIssue::NoInputFolder => push_str(out, "Could not determine input folder"),
        ValidationIssue::NoInputName => push_str(out, "Could not determine input filename"),
    }
}

fn push_failure(out: &mut Vec<char>, t: Tool, detail: &String)
    ensures
        final(out)@ == old(out)@ + failure_text(t, detail@),
{
    push_tool(out, t);
    if detail.as_str().is_empty() {
        push_str(out, " failed");
    } else {
        push_str(out, " failed: ");
        push_str(out, detail.as_str());
    }
    assert(final(out)@ =~= old(out)@ + failure_text(t, detail@));
}

impl EngineError {
    /// The message shown to the user.
    pub fn message(&self) -> (r: String)
        ensures
            r@ == error_text(*self),
    {
        let mut out: Vec<char> = Vec::new();
        match self {
            EngineError::Configuration(c) => match c {
                ConfigIssue::DirMissing => push_str(&mut out, "FFmpeg bin folder does not exist"),
                ConfigIssue::NotADirectory => push_str(
                    &mut out,
                    "FFmpeg bin folder is not a directory",
                ),
                ConfigIssue::EncoderMissing => push_str(
                    &mut out,
                    "FFmpeg bin folder must contain ffmpeg.exe",
                ),
                ConfigIssue::InspectorMissing => push_str(
                    &mut out,
                    "FFmpeg bin folder must contain ffprobe.exe",
                ),
            },
            EngineError::Validation(v) => push_validation(&mut out, *v),
            EngineError::Execution { tool, not_found, detail } => {
                push_str(&mut out, "Failed to run ");
                push_tool(&mut out, *tool);
                if *not_found {
                    push_str(&mut out, ": program not found (set FFmpeg bin folder or add ");
                    push_tool(&mut out, *tool);
                    push_str(&mut out, " to PATH)");
                } else {
                    push_str(&mut out, ": ");
                    push_str(&mut out, detail.as_str());
                }
            },
            EngineError::Inspection(d) => push_failure(&mut out, Tool::Inspector, d),
            EngineError::Encoding(d) => push_failure(&mut out, Tool::Encoder, d),
            EngineError::Parse(p) => match p {
                ParseIssue::InvalidJson(d) => {
                    push_str(&mut out, "Invalid ffprobe JSON: ");
                    push_str(&mut out, d.as_str());
                },
                ParseIssue::MissingStreamIndex => push_str(&mut out, "ffprobe stream missing index"),
            },
            EngineError::CorruptOutput(n) => {
                push_str(&mut out, "Lossless cut produced invalid output (");
                push_decimal(&mut out, *n);
                push_str(
                    &mut out,
                    " bytes). This usually happens when the cut point is not near a keyframe. Try using 'Exact' mode instead, or adjust the cut times to be closer to a keyframe.",
                );
            },
        }
        assert(out@ =~= error_text(*self));
        string_of(&out)
    }
}

} // verus!
