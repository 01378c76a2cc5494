use clipwave::error::{EngineError, ParseIssue};
use clipwave::probe::{parse_media_probe_json, parse_streams_from_ffprobe_json};
use clipwave::streams::{classify_streams, RawStream, StreamDescriptor, StreamKind};

fn raw(kind: StreamKind, index: i64) -> RawStream {
    RawStream {
        kind,
        info: StreamDescriptor {
            order: 7,
            index,
            codec_name: String::new(),
            channels: None,
            language: "und".to_string(),
            title: String::new(),
        },
    }
}

#[test]
fn scenario_orders_assigned_per_type() {
    let json = br#"{"streams":[{"index":1,"codec_type":"audio"},{"index":3,"codec_type":"audio"},{"index":2,"codec_type":"subtitle"}]}"#;
    let (audio, subs) = parse_streams_from_ffprobe_json(json).unwrap();
    assert_eq!(audio.len(), 2);
    assert_eq!((audio[0].index, audio[0].order), (1, 0));
    assert_eq!((audio[1].index, audio[1].order), (3, 1));
    assert_eq!(subs.len(), 1);
    assert_eq!((subs[0].index, subs[0].order), (2, 0));
}

#[test]
fn classification_sorts_by_index_and_packs_orders() {
    let input = vec![
        raw(StreamKind::Audio, 9),
        raw(StreamKind::Other, 0),
        raw(StreamKind::Subtitle, 12),
        raw(StreamKind::Audio, 2),
        raw(StreamKind::Subtitle, 4),
        raw(StreamKind::Audio, 5),
    ];
    let (audio, subs) = classify_streams(input);
    let a: Vec<(i64, usize)> = audio.iter().map(|s| (s.index, s.order)).collect();
    let s: Vec<(i64, usize)> = subs.iter().map(|s| (s.index, s.order)).collect();
    assert_eq!(a, vec![(2, 0), (5, 1), (9, 2)]);
    assert_eq!(s, vec![(4, 0), (12, 1)]);
}

#[test]
fn classification_of_nothing_is_empty() {
    let (audio, subs) = classify_streams(Vec::new());
    assert!(audio.is_empty());
    assert!(subs.is_empty());
}

#[test]
fn stream_fields_and_defaults() {
    let json = br#"{"streams":[
        {"index":0,"codec_type":"video","codec_name":"h264"},
        {"index":1,"codec_type":"audio","codec_name":"aac","channels":6,"tags":{"language":"eng","title":"Main"}},
        {"index":2,"codec_type":"subtitle","codec_name":"subrip","channels":2}
    ]}"#;
    let (audio, subs) = parse_streams_from_ffprobe_json(json).unwrap();
    assert_eq!(audio[0].codec_name, "aac");
    assert_eq!(audio[0].channels, Some(6));
    assert_eq!(audio[0].language, "eng");
    assert_eq!(audio[0].title, "Main");
    assert_eq!(subs[0].codec_name, "subrip");
    assert_eq!(subs[0].channels, None);
    assert_eq!(subs[0].language, "und");
    assert_eq!(subs[0].title, "");
}

#[test]
fn stream_without_index_is_a_parse_error() {
    let json = br#"{"streams":[{"codec_type":"video"},{"index":1,"codec_type":"audio"}]}"#;
    let r = parse_streams_from_ffprobe_json(json);
    assert_eq!(r.err(), Some(EngineError::Parse(ParseIssue::MissingStreamIndex)));
    assert_eq!(
        EngineError::Parse(ParseIssue::MissingStreamIndex).message(),
        "ffprobe stream missing index"
    );
}

#[test]
fn malformed_listing_is_invalid_json() {
    let r = parse_streams_from_ffprobe_json(b"{not json");
    match r {
        Err(EngineError::Parse(ParseIssue::InvalidJson(detail))) => {
            assert!(!detail.is_empty());
            let msg = EngineError::Parse(ParseIssue::InvalidJson(detail)).message();
            assert!(msg.starts_with("Invalid ffprobe JSON: "));
        }
        _ => panic!("expected an invalid JSON error"),
    }
}

#[test]
fn listing_without_streams_is_empty() {
    let (audio, subs) = parse_streams_from_ffprobe_json(b"{}").unwrap();
    assert!(audio.is_empty() && subs.is_empty());
}

#[test]
fn media_probe_reads_duration_and_skips_unindexed_video() {
    let json = br#"{"format":{"duration":"12.500000"},"streams":[{"codec_type":"video"},{"index":2,"codec_type":"audio"},{"index":1,"codec_type":"audio"}]}"#;
    let m = parse_media_probe_json(json).unwrap();
    assert_eq!(m.duration_us, Some(12_500_000));
    let a: Vec<(i64, usize)> = m.audio_streams.iter().map(|s| (s.index, s.order)).collect();
    assert_eq!(a, vec![(1, 0), (2, 1)]);
    assert!(m.subtitle_streams.is_empty());
}

#[test]
fn media_probe_without_duration() {
    let m = parse_media_probe_json(br#"{"format":{"duration":"N/A"},"streams":[]}"#).unwrap();
    assert_eq!(m.duration_us, None);
}
