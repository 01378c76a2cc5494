//! Audio and subtitle stream descriptors, and their classification by type
//! with dense per-type numbering.
use vstd::prelude::*;
use vstd::seq_lib::{to_multiset_build, to_multiset_insert, to_multiset_len};

verus! {

/// The type of a stream, as far as trimming cares.
#[derive(PartialEq, Eq, Structural, Debug, Clone, Copy)]
pub enum StreamKind {
    Audio,
    Subtitle,
    Other,
}

/// One audio or subtitle stream of a media file.
///
/// `order` is the 0-based position among the streams of the same type, sorted
/// by `index`, the inspector's global stream index; the encoder addresses a
/// stream of a type by that position.
#[derive(Debug, Clone)]
pub struct StreamDescriptor {
    pub order: usize,
    pub index: i64,
    pub codec_name: String,
    pub channels: Option<i64>,
    pub language: String,
    pub title: String,
}

/// A stream descriptor as plain values.
pub struct StreamView {
    pub order: nat,
    pub index: i64,
    pub codec_name: Seq<char>,
    pub channels: Option<i64>,
    pub language: Seq<char>,
    pub title: Seq<char>,
}

impl View for StreamDescriptor {
    type V = StreamView;

    open spec fn view(&self) -> StreamView {
        StreamView {
            order: self.order as nat,
            index: self.index,
            codec_name: self.codec_name@,
            channels: self.channels,
            language: self.language@,
            title: self.title@,
        }
    }
}

/// A stream as the inspector reports it, before classification.
#[derive(Debug, Clone)]
pub struct RawStream {
    pub kind: StreamKind,
    pub info: StreamDescriptor,
}

impl View for RawStream {
    type V = (StreamKind, StreamView);

    open spec fn view(&self) -> (StreamKind, StreamView) {
        (self.kind, self.info@)
    }
}

pub open spec fn raw_views(s: Seq<RawStream>) -> Seq<(StreamKind, StreamView)> {
    s.map_values(|r: RawStream| r@)
}

/// The same stream under another number.
pub open spec fn renumbered(v: StreamView, k: nat) -> StreamView {
    StreamView {
        order: k,
        index: v.index,
        codec_name: v.codec_name,
        channels: v.channels,
        language: v.language,
        title: v.title,
    }
}

pub open spec fn views(s: Seq<StreamDescriptor>) -> Seq<StreamView> {
    s.map_values(|d: StreamDescriptor| d@)
}

/// The streams of one kind, in the order given, numbered 0.
pub open spec fn streams_of_kind(raw: Seq<(StreamKind, StreamView)>, kind: StreamKind) -> Seq<
    StreamView,
>
    decreases raw.len(),
{
    if raw.len() == 0 {
        Seq::empty()
    } else {
        let rest = streams_of_kind(raw.drop_last(), kind);
        if raw.last().0 == kind {
            rest.push(renumbered(raw.last().1, 0))
        } else {
            rest
        }
    }
}

pub open spec fn ascending_by_index(s: Seq<StreamView>) -> bool {
    forall|i: int, j: int| 0 <= i < j < s.len() ==> s[i].index <= s[j].index
}

/// `out` holds the streams of `of`, sorted by global index, and numbered
/// `0..n-1` in that order.
pub open spec fn numbered_by_index(out: Seq<StreamView>, of: Seq<StreamView>) -> bool {
    &&& out.len() == of.len()
    &&& forall|i: int| 0 <= i < out.len() ==> #[trigger] out[i].order == i
    &&& ascending_by_index(out)
    &&& out.map_values(|v: StreamView| renumbered(v, 0)).to_multiset() == of.to_multiset()
}

fn insert_by_index(sorted: &mut Vec<StreamDescriptor>, e: StreamDescriptor)
    requires
        ascending_by_index(views(old(sorted)@)),
        forall|k: int| 0 <= k < old(sorted)@.len() ==> #[trigger] old(sorted)@[k].order == 0,
        e.order == 0,
    ensures
        ascending_by_index(views(final(sorted)@)),
        forall|k: int| 0 <= k < final(sorted)@.len() ==> #[trigger] final(sorted)@[k].order == 0,
        views(final(sorted)@).to_multiset() == views(old(sorted)@).to_multiset().insert(e@),
{
    let mut pos: usize = 0;
    while pos < sorted.len() && sorted[pos].index <= e.index
        invariant
            pos <= sorted@.len(),
            forall|k: int| 0 <= k < pos ==> #[trigger] sorted@[k].index <= e.index,
        decreases sorted@.len() - pos,
    {
        pos = pos + 1;
    }
    let ghost before = sorted@;
    let ghost ev = e@;
    sorted.insert(pos, e);
    proof {
        assert(views(sorted@) =~= views(before).insert(pos as int, ev));
        to_multiset_insert(views(before), pos as int, ev);
        let s = views(sorted@);
        let b = views(before);
        assert forall|i: int, j: int| 0 <= i < j < s.len() implies s[i].index <= s[j].index by {
            if j < pos {
                assert(s[i] == b[i] && s[j] == b[j]);
            } else if j == pos {
                assert(s[i] == b[i]);
                assert(before[i].index <= ev.index);
            } else if i > pos {
                assert(s[i] == b[i - 1] && s[j] == b[j - 1]);
            } else if i == pos {
                assert(s[j] == b[j - 1]);
                assert(b[pos as int].index > ev.index);
                assert(b[pos as int].index <= b[j - 1].index);
            } else {
                assert(s[i] == b[i] && s[j] == b[j - 1]);
            }
        }
        assert forall|k: int| 0 <= k < sorted@.len() implies #[trigger] sorted@[k].order == 0 by {
            if k < pos {
                assert(sorted@[k] == before[k]);
            } else if k > pos {
                assert(sorted@[k] == before[k - 1]);
            }
        }
    }
}

fn number_in_order(sorted: Vec<StreamDescriptor>) -> (out: Vec<StreamDescriptor>)
    requires
        forall|k: int| 0 <= k < sorted@.len() ==> #[trigger] sorted@[k].order == 0,
    ensures
        out@.len() == sorted@.len(),
        forall|i: int| 0 <= i < out@.len() ==> #[trigger] out@[i]@ == renumbered(sorted@[i]@, i as nat),
{
    let ghost orig = sorted@;
    let mut rest = sorted;
    let mut out: Vec<StreamDescriptor> = Vec::new();
    while rest.len() > 0
        invariant
            out@.len() + rest@.len() == orig.len(),
            rest@ == orig.skip(out@.len() as int),
            forall|i: int| 0 <= i < out@.len() ==> #[trigger] out@[i]@ == renumbered(orig[i]@, i as nat),
        decreases rest@.len(),
    {
        let ghost k = out@.len() as int;
        let mut d = rest.remove(0);
        assert(d == orig[k]);
        d.order = out.len();
        out.push(d);
        assert(rest@ =~= orig.skip(out@.len() as int));
    }
    out
}

proof fn lemma_numbered(out: Seq<StreamDescriptor>, sorted: Seq<StreamDescriptor>)
    requires
        out.len() == sorted.len(),
        forall|k: int| 0 <= k < sorted.len() ==> #[trigger] sorted[k].order == 0,
        forall|i: int| 0 <= i < out.len() ==> #[trigger] out[i]@ == renumbered(sorted[i]@, i as nat),
        ascending_by_index(views(sorted)),
    ensures
        views(out).map_values(|v: StreamView| renumbered(v, 0)) == views(sorted),
        forall|i: int| 0 <= i < out.len() ==> #[trigger] views(out)[i].order == i,
        ascending_by_index(views(out)),
{
    assert forall|i: int| 0 <= i < out.len() implies #[trigger] views(out)[i].order == i by {
        assert(views(out)[i] == out[i]@);
    }
    assert forall|i: int, j: int| 0 <= i < j < out.len() implies views(out)[i].index <= views(
        out,
    )[j].index by {
        assert(views(out)[i] == out[i]@);
        assert(views(out)[j] == out[j]@);
        assert(views(sorted)[i] == sorted[i]@);
        assert(views(sorted)[j] == sorted[j]@);
    }
    assert(views(out).map_values(|v: StreamView| renumbered(v, 0)) =~= views(sorted));
}

/// Splits the streams into audio and subtitle streams, each sorted by global
/// index and numbered from 0 in that order; other streams are left out.
pub fn classify_streams(raw: Vec<RawStream>) -> (r: (Vec<StreamDescriptor>, Vec<StreamDescriptor>))
    ensures
        numbered_by_index(views(r.0@), streams_of_kind(raw_views(raw@), StreamKind::Audio)),
        numbered_by_index(views(r.1@), streams_of_kind(raw_views(raw@), StreamKind::Subtitle)),
{
    let ghost all = raw@;
    let mut rest = raw;
    let mut audio: Vec<StreamDescriptor> = Vec::new();
    let mut subs: Vec<StreamDescriptor> = Vec::new();
    let ghost mut done: int = 0;
    assert(raw_views(all.take(0)) =~= Seq::<(StreamKind, StreamView)>::empty());
    assert(views(audio@) =~= Seq::<StreamView>::empty());
    assert(views(subs@) =~= Seq::<StreamView>::empty());
    assert(streams_of_kind(raw_views(all.take(0)), StreamKind::Audio) =~= Seq::<StreamView>::empty());
    assert(streams_of_kind(raw_views(all.take(0)), StreamKind::Subtitle) =~= Seq::<StreamView>::empty());
    while rest.len() > 0
        invariant
            0 <= done <= all.len(),
            rest@ == all.skip(done),
            ascending_by_index(views(audio@)),
            ascending_by_index(views(subs@)),
            forall|k: int| 0 <= k < audio@.len() ==> #[trigger] audio@[k].order == 0,
            forall|k: int| 0 <= k < subs@.len() ==> #[trigger] subs@[k].order == 0,
            views(audio@).to_multiset() == streams_of_kind(raw_views(all.take(done)), StreamKind::Audio).to_multiset(),
            views(subs@).to_multiset() == streams_of_kind(raw_views(all.take(done)), StreamKind::Subtitle).to_multiset(),
        decreases rest@.len(),
    {
        let r = rest.remove(0);
        assert(r == all[done]);
        let RawStream { kind, info } = r;
        let d = StreamDescriptor {
            order: 0,
            index: info.index,
            codec_name: info.codec_name,
            channels: info.channels,
            language: info.language,
            title: info.title,
        };
        assert(d@ == renumbered(all[done].info@, 0));
        proof {
            let t = all.take(done + 1);
            assert(raw_views(t).drop_last() =~= raw_views(all.take(done)));
            assert(raw_views(t).last() == all[done]@);
            to_multiset_build(streams_of_kind(raw_views(all.take(done)), StreamKind::Audio), d@);
            to_multiset_build(streams_of_kind(raw_views(all.take(done)), StreamKind::Subtitle), d@);
        }
        match kind {
            StreamKind::Audio => insert_by_index(&mut audio, d),
            StreamKind::Subtitle => insert_by_index(&mut subs, d),
            StreamKind::Other => {},
        }
        proof {
            done = done + 1;
        }
        assert(rest@ =~= all.skip(done));
    }
    assert(all.take(done) =~= all);
    let ghost sa = audio@;
    let ghost ss = subs@;
    let a = number_in_order(audio);
    let s = number_in_order(subs);
    proof {
        lemma_numbered(a@, sa);
        lemma_numbered(s@, ss);
        to_multiset_len(views(sa));
        to_multiset_len(streams_of_kind(raw_views(all), StreamKind::Audio));
        to_multiset_len(views(ss));
        to_multiset_len(streams_of_kind(raw_views(all), StreamKind::Subtitle));
    }
    (a, s)
}

} // verus!
