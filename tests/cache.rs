use clipwave::cache::{probe_cache_key_best_effort, ProbeCache, ProbePart, ProbeRecord, ProbeSource};
use clipwave::streams::StreamDescriptor;

fn source(runner: &str) -> ProbeSource {
    ProbeSource {
        bin_dir_used: String::new(),
        inspector_path: "ffprobe".to_string(),
        inspector_args: vec!["-v".to_string()],
        runner: runner.to_string(),
        cwd: String::new(),
    }
}

fn stream(index: i64, order: usize) -> StreamDescriptor {
    StreamDescriptor {
        order,
        index,
        codec_name: "aac".to_string(),
        channels: Some(2),
        language: "und".to_string(),
        title: String::new(),
    }
}

fn record(duration: Option<i64>, audio: Option<Vec<StreamDescriptor>>, subs: Option<Vec<StreamDescriptor>>) -> ProbeRecord {
    ProbeRecord {
        input_path: "/m/a.mp4".to_string(),
        duration_us: duration,
        audio_streams: audio,
        subtitle_streams: subs,
        source: source("direct"),
    }
}

#[test]
fn duration_then_tracks_keeps_both() {
    let mut cache = ProbeCache::new();
    cache.merge("k", record(Some(42_000_000), None, None));
    cache.merge("k", record(None, Some(vec![stream(1, 0), stream(3, 1)]), None));
    let r = cache.get("k").unwrap();
    assert_eq!(r.duration_us, Some(42_000_000));
    let audio = r.audio_streams.as_ref().unwrap();
    assert_eq!(audio.len(), 2);
    assert_eq!(audio[1].index, 3);
    assert!(r.subtitle_streams.is_none());
}

#[test]
fn subtitles_do_not_erase_duration() {
    let mut cache = ProbeCache::new();
    cache.merge("k", record(Some(1_000), None, None));
    cache.merge("k", record(None, None, Some(vec![stream(2, 0)])));
    let r = cache.get("k").unwrap();
    assert_eq!(r.duration_us, Some(1_000));
    assert!(r.subtitle_streams.is_some());
    assert!(cache.get_complete("k", ProbePart::Duration).is_some());
    assert!(cache.get_complete("k", ProbePart::Subtitles).is_some());
    assert!(cache.get_complete("k", ProbePart::Tracks).is_none());
}

#[test]
fn merging_twice_changes_nothing() {
    let mut cache = ProbeCache::new();
    cache.merge("k", record(Some(5), None, None));
    cache.merge("k", record(Some(5), None, None));
    assert_eq!(cache.get("k").unwrap().duration_us, Some(5));
}

#[test]
fn keys_are_independent() {
    let mut cache = ProbeCache::new();
    cache.merge("a", record(Some(1), None, None));
    cache.merge("b", record(Some(2), None, None));
    assert_eq!(cache.get("a").unwrap().duration_us, Some(1));
    assert_eq!(cache.get("b").unwrap().duration_us, Some(2));
    assert!(cache.get("c").is_none());
}

#[test]
fn cache_key_with_and_without_metadata() {
    assert_eq!(probe_cache_key_best_effort("/m/a.mp4", None), "/m/a.mp4");
    assert_eq!(
        probe_cache_key_best_effort("/m/a.mp4", Some((1234, Some(1_700_000_000_042)))),
        "/m/a.mp4|1234|1700000000.042"
    );
    assert_eq!(probe_cache_key_best_effort("x", Some((0, None))), "x|0|0.000");
}
