//! The probe cache: partial probe results kept per media fingerprint and
//! merged without loss.
use vstd::prelude::*;
use crate::streams::{views, StreamDescriptor, StreamView};
use crate::text::{chars_of, decimal, padded_decimal, push_decimal, push_padded_decimal, push_str, same_chars, string_of};

verus! {

/// Where a probe result came from, for diagnostics.
#[derive(Debug, Clone)]
pub struct ProbeSource {
    pub bin_dir_used: String,
    pub inspector_path: String,
    pub inspector_args: Vec<String>,
    pub runner: String,
    pub cwd: String,
}

pub struct SourceView {
    pub bin_dir_used: Seq<char>,
    pub inspector_path: Seq<char>,
    pub inspector_args: Seq<Seq<char>>,
    pub runner: Seq<char>,
    pub cwd: Seq<char>,
}

impl View for ProbeSource {
    type V = SourceView;

    open spec fn view(&self) -> SourceView {
        SourceView {
            bin_dir_used: self.bin_dir_used@,
            inspector_path: self.inspector_path@,
            inspector_args: self.inspector_args@.map_values(|a: String| a@),
            runner: self.runner@,
            cwd: self.cwd@,
        }
    }
}

/// A probe result of which any part may be missing: the duration, the audio
/// track list, the subtitle list. A present part is complete.
#[derive(Debug, Clone)]
pub struct ProbeRecord {
    pub input_path: String,
    pub duration_us: Option<i64>,
    pub audio_streams: Option<Vec<StreamDescriptor>>,
    pub subtitle_streams: Option<Vec<StreamDescriptor>>,
    pub source: ProbeSource,
}

pub struct RecordView {
    pub input_path: Seq<char>,
    pub duration_us: Option<i64>,
    pub audio_streams: Option<Seq<StreamView>>,
    pub subtitle_streams: Option<Seq<StreamView>>,
    pub source: SourceView,
}

pub open spec fn optional_views(s: Option<Vec<StreamDescriptor>>) -> Option<Seq<StreamView>> {
    match s {
        Some(v) => Some(views(v@)),
        None => None,
    }
}

impl View for ProbeRecord {
    type V = RecordView;

    open spec fn view(&self) -> RecordView {
        RecordView {
            input_path: self.input_path@,
            duration_us: self.duration_us,
            audio_streams: optional_views(self.audio_streams),
            subtitle_streams: optional_views(self.subtitle_streams),
            source: self.source@,
        }
    }
}

pub open spec fn newer<T>(update: Option<T>, prior: Option<T>) -> Option<T> {
    if update is Some {
        update
    } else {
        prior
    }
}

/// A record after an update: each part that the update holds replaces the
/// prior one, each part that it lacks is kept; path and source are the
/// update's.
pub open spec fn merged(prior: Option<RecordView>, u: RecordView) -> RecordView {
    match prior {
        Some(p) => RecordView {
            input_path: u.input_path,
            duration_us: newer(u.duration_us, p.duration_us),
            audio_streams: newer(u.audio_streams, p.audio_streams),
            subtitle_streams: newer(u.subtitle_streams, p.subtitle_streams),
            source: u.source,
        },
        None => u,
    }
}

pub open spec fn record_at(m: Map<Seq<char>, RecordView>, key: Seq<char>) -> Option<RecordView> {
    if m.dom().contains(key) {
        Some(m[key])
    } else {
        None
    }
}

/// Merging a duration-only update and then a tracks-only update under one
/// key leaves a record that holds both, each as its update gave it: a part
/// that an update lacks never erases the cached one.
pub proof fn merge_is_non_destructive(
    cache: Map<Seq<char>, RecordView>,
    key: Seq<char>,
    duration_update: RecordView,
    tracks_update: RecordView,
)
    requires
        duration_update.duration_us is Some,
        duration_update.audio_streams is None,
        duration_update.subtitle_streams is None,
        tracks_update.duration_us is None,
        tracks_update.audio_streams is Some,
    ensures
        ({
            let first = cache.insert(key, merged(record_at(cache, key), duration_update));
            let second = first.insert(key, merged(record_at(first, key), tracks_update));
            &&& second[key].duration_us == duration_update.duration_us
            &&& second[key].audio_streams == tracks_update.audio_streams
        }),
{
    let first = cache.insert(key, merged(record_at(cache, key), duration_update));
    assert(record_at(first, key) == Some(first[key]));
}

/// Merging the same update twice leaves the cache as one merge does.
pub proof fn merge_is_idempotent(cache: Map<Seq<char>, RecordView>, key: Seq<char>, update: RecordView)
    ensures
        ({
            let once = cache.insert(key, merged(record_at(cache, key), update));
            once.insert(key, merged(record_at(once, key), update)) == once
        }),
{
    let once = cache.insert(key, merged(record_at(cache, key), update));
    assert(record_at(once, key) == Some(once[key]));
    assert(once.insert(key, merged(record_at(once, key), update)) =~= once);
}

fn newer_value<T>(update: Option<T>, prior: Option<T>) -> (r: Option<T>)
    ensures
        r == newer(update, prior),
{
    if update.is_some() {
        update
    } else {
        prior
    }
}

fn merge_records(prior: Option<ProbeRecord>, u: ProbeRecord) -> (r: ProbeRecord)
    ensures
        r@ == merged(
            match prior {
                Some(p) => Some(p@),
                None => None,
            },
            u@,
        ),
{
    match prior {
        Some(p) => {
            let ProbeRecord { input_path, duration_us, audio_streams, subtitle_streams, source } = u;
            let r = ProbeRecord {
                input_path,
                duration_us: newer_value(duration_us, p.duration_us),
                audio_streams: newer_value(audio_streams, p.audio_streams),
                subtitle_streams: newer_value(subtitle_streams, p.subtitle_streams),
                source,
            };
            r
        },
        None => u,
    }
}

/// The record under `key`: the last entry with that key.
pub open spec fn lookup(s: Seq<(String, ProbeRecord)>, key: Seq<char>) -> Option<RecordView>
    decreases s.len(),
{
    if s.len() == 0 {
        None
    } else if s.last().0@ == key {
        Some(s.last().1@)
    } else {
        lookup(s.drop_last(), key)
    }
}

proof fn lemma_lookup_update(
    s: Seq<(String, ProbeRecord)>,
    i: int,
    e: (String, ProbeRecord),
    key: Seq<char>,
    k: Seq<char>,
)
    requires
        0 <= i < s.len(),
        s[i].0@ == key,
        e.0@ == key,
        forall|j: int| i < j < s.len() ==> #[trigger] s[j].0@ != key,
    ensures
        lookup(s.update(i, e), k) == (if k == key {
            Some(e.1@)
        } else {
            lookup(s, k)
        }),
    decreases s.len(),
{
    let t = s.update(i, e);
    if i == s.len() - 1 {
        assert(t.drop_last() =~= s.drop_last());
    } else {
        assert(t.drop_last() =~= s.drop_last().update(i, e));
        assert(t.last() == s.last());
        lemma_lookup_update(s.drop_last(), i, e, key, k);
    }
}

/// One of the independently cached parts of a probe result.
#[derive(PartialEq, Eq, Structural, Debug, Clone, Copy)]
pub enum ProbePart {
    Duration,
    Tracks,
    Subtitles,
}

pub open spec fn holds_part(r: RecordView, part: ProbePart) -> bool {
    match part {
        ProbePart::Duration => r.duration_us is Some,
        ProbePart::Tracks => r.audio_streams is Some,
        ProbePart::Subtitles => r.subtitle_streams is Some,
    }
}

/// Probe results per media fingerprint.
pub struct ProbeCache {
    entries: Vec<(String, ProbeRecord)>,
}

impl View for ProbeCache {
    type V = Map<Seq<char>, RecordView>;

    closed spec fn view(&self) -> Map<Seq<char>, RecordView> {
        Map::new(
            |k: Seq<char>| lookup(self.entries@, k) is Some,
            |k: Seq<char>| lookup(self.entries@, k)->Some_0,
        )
    }
}

impl ProbeCache {
    /// An empty cache.
    pub fn new() -> (r: ProbeCache)
        ensures
            r@ == Map::<Seq<char>, RecordView>::empty(),
    {
        let r = ProbeCache { entries: Vec::new() };
        assert(r@ =~= Map::<Seq<char>, RecordView>::empty());
        r
    }

    /// The position of the entry under `key`, if any.
    fn find(&self, key: &str) -> (r: Option<usize>)
        ensures
            match r {
                Some(i) => i < self.entries@.len() && self.entries@[i as int].0@ == key@
                    && lookup(self.entries@, key@) == Some(self.entries@[i as int].1@)
                    && forall|j: int| i < j < self.entries@.len() ==> #[trigger] self.entries@[j].0@ != key@,
                None => lookup(self.entries@, key@) is None,
            },
    {
        let kc = chars_of(key);
        let mut j: usize = self.entries.len();
        assert(self.entries@.take(j as int) =~= self.entries@);
        while j > 0
            invariant
                j <= self.entries@.len(),
                kc@ == key@,
                lookup(self.entries@, key@) == lookup(self.entries@.take(j as int), key@),
                forall|m: int| j <= m < self.entries@.len() ==> #[trigger] self.entries@[m].0@ != key@,
            decreases j,
        {
            let ec = chars_of(self.entries[j - 1].0.as_str());
            assert(self.entries@.take(j as int).drop_last() =~= self.entries@.take(j - 1));
            if same_chars(&ec, &kc) {
                return Some(j - 1);
            }
            j = j - 1;
        }
        None
    }

    /// The record under `key`.
    pub fn get(&self, key: &str) -> (r: Option<&ProbeRecord>)
        ensures
            match r {
                Some(x) => record_at(self@, key@) == Some(x@),
                None => record_at(self@, key@) is None,
            },
    {
        match self.find(key) {
            Some(i) => Some(&self.entries[i].1),
            None => None,
        }
    }

    /// The record under `key` where it holds the given part: the lookup that
    /// decides whether a probe can be answered from the cache.
    pub fn get_complete(&self, key: &str, part: ProbePart) -> (r: Option<&ProbeRecord>)
        ensures
            match r {
                Some(x) => record_at(self@, key@) == Some(x@) && holds_part(x@, part),
                None => !(record_at(self@, key@) matches Some(v) && holds_part(v, part)),
            },
    {
        match self.get(key) {
            Some(x) => {
                let present = match part {
                    ProbePart::Duration => x.duration_us.is_some(),
                    ProbePart::Tracks => x.audio_streams.is_some(),
                    ProbePart::Subtitles => x.subtitle_streams.is_some(),
                };
                if present {
                    Some(x)
                } else {
                    None
                }
            },
            None => None,
        }
    }

    /// Merges a partial record into the record under `key`, or stores it as
    /// that record when there is none.
    pub fn merge(&mut self, key: &str, update: ProbeRecord)
        ensures
            final(self)@ == old(self)@.insert(key@, merged(record_at(old(self)@, key@), update@)),
    {
        let ghost u = update@;
        match self.find(key) {
            Some(i) => {
                let ghost before = self.entries@;
                let (k0, prior) = self.entries.remove(i);
                let r = merge_records(Some(prior), update);
                self.entries.insert(i, (k0, r));
                proof {
                    assert(self.entries@ =~= before.update(i as int, self.entries@[i as int]));
                    assert forall|k: Seq<char>| #[trigger] lookup(self.entries@, k) == (if k == key@ {
                        Some(self.entries@[i as int].1@)
                    } else {
                        lookup(before, k)
                    }) by {
                        lemma_lookup_update(before, i as int, self.entries@[i as int], key@, k);
                    }
                }
            },
            None => {
                let r = merge_records(None, update);
                let kstr = key.to_owned();
                let ghost before = self.entries@;
                self.entries.push((kstr, r));
                proof {
                    assert(self.entries@.drop_last() =~= before);
                    assert forall|k: Seq<char>| #[trigger] lookup(self.entries@, k) == (if k == key@ {
                        Some(self.entries@.last().1@)
                    } else {
                        lookup(before, k)
                    }) by {}
                }
            },
        }
        assert(self@ =~= old(self)@.insert(key@, merged(record_at(old(self)@, key@), u)));
    }
}

/// The cache key of a media file: its path, and where the file's metadata
/// could be read, its size in bytes and its modification time in seconds
/// with three decimals (0 when the time is unknown).
pub open spec fn cache_key(path: Seq<char>, meta: Option<(u64, Option<u64>)>) -> Seq<char> {
    match meta {
        None => path,
        Some((len, modified_ms)) => {
            let ms = match modified_ms {
                Some(m) => m as nat,
                None => 0,
            };
            path + "|"@ + decimal(len as nat) + "|"@ + decimal(ms / 1000) + "."@ + padded_decimal(
                ms % 1000,
                3,
            )
        },
    }
}

/// The cache key of a media file from its path and, where it could be read,
/// its size and modification time in milliseconds since the Unix epoch.
pub fn probe_cache_key_best_effort(input_path: &str, meta: Option<(u64, Option<u64>)>) -> (r: String)
    ensures
        r@ == cache_key(input_path@, meta),
{
    match meta {
        None => input_path.to_owned(),
        Some((len, modified_ms)) => {
            let ms: u64 = match modified_ms {
                Some(m) => m,
                None => 0,
            };
            let mut out: Vec<char> = Vec::new();
            push_str(&mut out, input_path);
            push_str(&mut out, "|");
            push_decimal(&mut out, len);
            push_str(&mut out, "|");
            push_decimal(&mut out, ms / 1000);
            push_str(&mut out, ".");
            push_padded_decimal(&mut out, ms % 1000, 3);
            assert(out@ =~= cache_key(input_path@, meta));
            string_of(&out)
        },
    }
}

} // verus!
