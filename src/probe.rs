//! What the inspector is asked, and how its answers are read.
use vstd::prelude::*;
use crate::error::{EngineError, ParseIssue};
use crate::json::{
    array_member, array_member_of, integer, integer_of, json_document, json_error_text,
    json_member, json_text, member, member_of, parse_json, text, text_or, text_or_default,
};
use crate::streams::{
    classify_streams, numbered_by_index, raw_views, streams_of_kind, views, RawStream,
    StreamDescriptor, StreamKind, StreamView,
};
use crate::text::{chars_of, lossy_string, lossy_text, micros_of, parse_micros, text_is, trim_text, trimmed};

verus! {

/// The kind of a stream entry, by its `codec_type`.
pub open spec fn kind_of(v: serde_json::Value) -> StreamKind {
    let t = text_or(json_member(v, "codec_type"@), ""@);
    if t == "audio"@ {
        StreamKind::Audio
    } else if t == "subtitle"@ {
        StreamKind::Subtitle
    } else {
        StreamKind::Other
    }
}

pub open spec fn has_index(v: serde_json::Value) -> bool {
    integer_of(json_member(v, "index"@)) is Some
}

/// A stream entry of the inspector's JSON as a stream, numbered 0. A missing
/// codec name reads as empty, a missing language as `und`, a missing title as
/// empty; channels are read for audio streams only.
pub open spec fn json_stream(v: serde_json::Value) -> (StreamKind, StreamView) {
    let kind = kind_of(v);
    let tags = json_member(v, "tags"@);
    (
        kind,
        StreamView {
            order: 0,
            index: match integer_of(json_member(v, "index"@)) {
                Some(i) => i,
                None => 0,
            },
            codec_name: text_or(json_member(v, "codec_name"@), ""@),
            channels: if kind == StreamKind::Audio {
                integer_of(json_member(v, "channels"@))
            } else {
                None
            },
            language: text_or(member_of(tags, "language"@), "und"@),
            title: text_or(member_of(tags, "title"@), ""@),
        },
    )
}

pub open spec fn json_streams(vs: Seq<serde_json::Value>) -> Seq<(StreamKind, StreamView)> {
    vs.map_values(|v: serde_json::Value| json_stream(v))
}

/// Some entry lacks an integer index: any entry when `all`, else an audio or
/// subtitle entry.
pub open spec fn index_missing(vs: Seq<serde_json::Value>, all: bool) -> bool {
    exists|i: int|
        0 <= i < vs.len() && (all || kind_of(vs[i]) != StreamKind::Other) && !has_index(
            #[trigger] vs[i],
        )
}

/// The stream entries of a document.
pub open spec fn stream_entries(doc: serde_json::Value) -> Seq<serde_json::Value> {
    array_member(doc, "streams"@)
}

fn stream_kind(v: &serde_json::Value) -> (k: StreamKind)
    ensures
        k == kind_of(*v),
{
    let t = text_or_default(member(v, "codec_type"), "");
    let c = chars_of(t.as_str());
    if text_is(&c, "audio") {
        StreamKind::Audio
    } else if text_is(&c, "subtitle") {
        StreamKind::Subtitle
    } else {
        StreamKind::Other
    }
}

fn optional_integer(v: Option<&serde_json::Value>) -> (r: Option<i64>)
    ensures
        r == integer_of(
            match v {
                Some(x) => Some(*x),
                None => None,
            },
        ),
{
    match v {
        Some(x) => integer(x),
        None => None,
    }
}

fn read_stream(v: &serde_json::Value) -> (r: RawStream)
    ensures
        r@ == json_stream(*v),
{
    let kind = stream_kind(v);
    let index = match optional_integer(member(v, "index")) {
        Some(i) => i,
        None => 0,
    };
    let codec_name = text_or_default(member(v, "codec_name"), "");
    let channels = match kind {
        StreamKind::Audio => optional_integer(member(v, "channels")),
        _ => None,
    };
    let (language, title) = match member(v, "tags") {
        Some(t) => (text_or_default(member(t, "language"), "und"), text_or_default(member(t, "title"), "")),
        None => ("und".to_owned(), "".to_owned()),
    };
    RawStream {
        kind,
        info: StreamDescriptor { order: 0, index, codec_name, channels, language, title },
    }
}

fn collect_streams(doc: &serde_json::Value, all: bool) -> (r: Result<Vec<RawStream>, EngineError>)
    ensures
        match r {
            Ok(raw) => !index_missing(stream_entries(*doc), all) && raw_views(raw@) == json_streams(
                stream_entries(*doc),
            ),
            Err(e) => index_missing(stream_entries(*doc), all) && e == EngineError::Parse(
                ParseIssue::MissingStreamIndex,
            ),
        },
{
    let mut raw: Vec<RawStream> = Vec::new();
    match array_member_of(doc, "streams") {
        Some(arr) => {
            let ghost vs = arr@;
            let mut i: usize = 0;
            while i < arr.len()
                invariant
                    vs == arr@,
                    vs == stream_entries(*doc),
                    i <= vs.len(),
                    raw_views(raw@) == json_streams(vs.take(i as int)),
                    forall|k: int|
                        0 <= k < i ==> (all || kind_of(vs[k]) != StreamKind::Other) ==> has_index(
                            #[trigger] vs[k],
                        ),
                decreases vs.len() - i,
            {
                let v = &arr[i];
                let kind = stream_kind(v);
                let idx = optional_integer(member(v, "index"));
                if (all || kind != StreamKind::Other) && idx.is_none() {
                    assert(!has_index(vs[i as int]));
                    return Err(EngineError::Parse(ParseIssue::MissingStreamIndex));
                }
                let s = read_stream(v);
                assert(s@ == json_stream(vs[i as int]));
                let ghost before = raw@;
                raw.push(s);
                assert(raw_views(raw@) =~= raw_views(before).push(json_stream(vs[i as int])));
                assert(json_streams(vs.take(i + 1)) =~= json_streams(vs.take(i as int)).push(
                    json_stream(vs[i as int]),
                ));
                i = i + 1;
            }
            assert(vs.take(vs.len() as int) =~= vs);
        },
        None => {
            assert(raw_views(raw@) =~= json_streams(stream_entries(*doc)));
        },
    }
    Ok(raw)
}

/// Reads the inspector's JSON stream listing into audio and subtitle streams,
/// each sorted by global index and numbered from 0. Every entry must carry an
/// integer index.
pub fn parse_streams_from_ffprobe_json(stdout: &[u8]) -> (r: Result<
    (Vec<StreamDescriptor>, Vec<StreamDescriptor>),
    EngineError,
>)
    ensures
        match json_document(stdout@) {
            None => r matches Err(EngineError::Parse(ParseIssue::InvalidJson(_))),
            Some(doc) => if index_missing(stream_entries(doc), true) {
                r == Err::<(Vec<StreamDescriptor>, Vec<StreamDescriptor>), EngineError>(
                    EngineError::Parse(ParseIssue::MissingStreamIndex),
                )
            } else {
                r matches Ok((a, s)) && numbered_by_index(
                    views(a@),
                    streams_of_kind(json_streams(stream_entries(doc)), StreamKind::Audio),
                ) && numbered_by_index(
                    views(s@),
                    streams_of_kind(json_streams(stream_entries(doc)), StreamKind::Subtitle),
                )
            },
        },
{
    let doc = match parse_json(stdout) {
        Ok(d) => d,
        Err(e) => {
            return Err(EngineError::Parse(ParseIssue::InvalidJson(json_error_text(&e))));
        },
    };
    let raw = collect_streams(&doc, true)?;
    Ok(classify_streams(raw))
}

/// What a combined probe reports: the container's duration, if it gives one,
/// and the classified streams.
pub struct MediaProbe {
    pub duration_us: Option<i64>,
    pub audio_streams: Vec<StreamDescriptor>,
    pub subtitle_streams: Vec<StreamDescriptor>,
}

/// The container duration that a document gives, in microseconds.
pub open spec fn format_duration(doc: serde_json::Value) -> Option<i64> {
    match member_of(json_member(doc, "format"@), "duration"@) {
        Some(x) => match json_text(x) {
            Some(t) => micros_of(t),
            None => None,
        },
        None => None,
    }
}

/// Reads the inspector's combined JSON answer: the container duration and the
/// audio and subtitle streams. Only audio and subtitle entries must carry an
/// integer index.
pub fn parse_media_probe_json(stdout: &[u8]) -> (r: Result<MediaProbe, EngineError>)
    ensures
        match json_document(stdout@) {
            None => r matches Err(EngineError::Parse(ParseIssue::InvalidJson(_))),
            Some(doc) => if index_missing(stream_entries(doc), false) {
                r == Err::<MediaProbe, EngineError>(
                    EngineError::Parse(ParseIssue::MissingStreamIndex),
                )
            } else {
                r matches Ok(m) && m.duration_us == format_duration(doc) && numbered_by_index(
                    views(m.audio_streams@),
                    streams_of_kind(json_streams(stream_entries(doc)), StreamKind::Audio),
                ) && numbered_by_index(
                    views(m.subtitle_streams@),
                    streams_of_kind(json_streams(stream_entries(doc)), StreamKind::Subtitle),
                )
            },
        },
{
    let doc = match parse_json(stdout) {
        Ok(d) => d,
        Err(e) => {
            return Err(EngineError::Parse(ParseIssue::InvalidJson(json_error_text(&e))));
        },
    };
    let duration_us = match member(&doc, "format") {
        Some(f) => match member(f, "duration") {
            Some(d) => match text(d) {
                Some(t) => parse_micros(&chars_of(t)),
                None => None,
            },
            None => None,
        },
        None => None,
    };
    let raw = collect_streams(&doc, false)?;
    let (audio_streams, subtitle_streams) = classify_streams(raw);
    Ok(MediaProbe { duration_us, audio_streams, subtitle_streams })
}

/// Reads the plain-text duration answer: one decimal number of seconds,
/// surrounded by whitespace.
pub fn parse_duration_from_ffprobe_text(stdout: &[u8]) -> (r: Option<i64>)
    ensures
        r == micros_of(trimmed(lossy_text(stdout@))),
{
    let s = lossy_string(stdout);
    let t = trim_text(s.as_str());
    parse_micros(&chars_of(t))
}

/// The first 200 bytes of a diagnostic stream, as text.
pub fn stderr_head_text(stderr: &[u8]) -> (r: String)
    ensures
        r@ == lossy_text(stderr@.take(if stderr@.len() < 200 { stderr@.len() as int } else { 200 })),
{
    let n: usize = if stderr.len() < 200 { stderr.len() } else { 200 };
    let mut head: Vec<u8> = Vec::new();
    let mut i: usize = 0;
    while i < n
        invariant
            n <= stderr@.len(),
            i <= n,
            head@ == stderr@.take(i as int),
        decreases n - i,
    {
        head.push(stderr[i]);
        i = i + 1;
        assert(head@ =~= stderr@.take(i as int));
    }
    lossy_string(head.as_slice())
}

/// The error for a tool run that exited with failure: its diagnostics as text,
/// trimmed.
pub fn inspector_failure(stderr: &[u8]) -> (r: EngineError)
    ensures
        r matches EngineError::Inspection(d) && d@ == trimmed(lossy_text(stderr@)),
{
    let s = lossy_string(stderr);
    EngineError::Inspection(trim_text(s.as_str()).to_owned())
}

/// The error for an encoder run that exited with failure.
pub fn encoder_failure(stderr: &[u8]) -> (r: EngineError)
    ensures
        r matches EngineError::Encoding(d) && d@ == trimmed(lossy_text(stderr@)),
{
    let s = lossy_string(stderr);
    EngineError::Encoding(trim_text(s.as_str()).to_owned())
}

} // verus!
