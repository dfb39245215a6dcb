use vstd::prelude::*;

use crate::clip::{ClipMap, MAX_ACTIVE_SOUNDS};

verus! {

broadcast use {
    vstd::seq_lib::group_to_multiset_ensures,
    vstd::multiset::group_multiset_axioms,
};

/// One playing voice: the clip it plays and how many of its frames have
/// already been mixed.
#[derive(Eq, PartialEq, Structural, Clone, Copy, Debug)]
pub struct SoundState {
    pub clip: ClipMap,
    pub cursor: usize,
}

impl SoundState {
    /// The clip is readable and the cursor has not run past its end.
    pub open spec fn wf(self) -> bool {
        &&& self.clip.wf()
        &&& self.cursor <= self.clip.frames_count
    }
}

/// One stretch of a clip to add into the output buffer: `frames` frames of
/// `src_channels` samples each, read from the atlas at `src_start`, added to
/// the output's frames `0..frames`.
#[derive(Eq, PartialEq, Structural, Clone, Copy, Debug)]
pub struct MixSpan {
    pub src_start: usize,
    pub src_channels: usize,
    pub frames: usize,
}

/// How one source frame is added into one output frame, chosen by the two
/// channel counts. Fan-out, averaging and spreading happen in the sample
/// arithmetic that applies the route.
#[derive(Eq, PartialEq, Structural, Clone, Copy, Debug)]
pub enum FrameRoute {
    /// One channel into one channel.
    MonoToMono,
    /// One channel into every output channel.
    MonoToAll,
    /// The mean of all source channels into the one output channel.
    AverageToMono,
    /// Left into left, right into right.
    StereoToStereo,
    /// Left and right into the first two outputs, their mean into the others.
    StereoWithMid,
    /// The first two sources into left and right, each plus half the mean of
    /// the remaining sources.
    ResidualToStereo,
    /// Channel `c` into channel `c`, for equal counts of three or more.
    Matched,
    /// Each source channel into its own output channel, and the mean of all
    /// sources into the outputs beyond them.
    CopyAndFillMono,
    /// The first `out` sources into the outputs, and the mean of the
    /// remaining sources, divided by the output count, into every output.
    CopyAndSpreadRest,
}

/// The route for a source of `src_channels` channels into an output of
/// `out_channels` channels.
pub fn frame_route(src_channels: usize, out_channels: usize) -> (route: FrameRoute)
    requires
        src_channels >= 1,
        out_channels >= 1,
    ensures
        match route {
            FrameRoute::MonoToMono => src_channels == 1 && out_channels == 1,
            FrameRoute::MonoToAll => src_channels == 1 && out_channels >= 2,
            FrameRoute::AverageToMono => src_channels >= 2 && out_channels == 1,
            FrameRoute::StereoToStereo => src_channels == 2 && out_channels == 2,
            FrameRoute::StereoWithMid => src_channels == 2 && out_channels >= 3,
            FrameRoute::ResidualToStereo => src_channels >= 3 && out_channels == 2,
            FrameRoute::Matched => src_channels >= 3 && out_channels == src_channels,
            FrameRoute::CopyAndFillMono => 3 <= src_channels < out_channels,
            FrameRoute::CopyAndSpreadRest => 3 <= out_channels < src_channels,
        },
{
    if src_channels == 1 && out_channels == 1 {
        FrameRoute::MonoToMono
    } else if src_channels == 1 {
        FrameRoute::MonoToAll
    } else if out_channels == 1 {
        FrameRoute::AverageToMono
    } else if src_channels == 2 && out_channels == 2 {
        FrameRoute::StereoToStereo
    } else if src_channels == 2 {
        FrameRoute::StereoWithMid
    } else if out_channels == 2 {
        FrameRoute::ResidualToStereo
    } else if out_channels == src_channels {
        FrameRoute::Matched
    } else if out_channels > src_channels {
        FrameRoute::CopyAndFillMono
    } else {
        FrameRoute::CopyAndSpreadRest
    }
}

/// Whether `mix` clears an output buffer of `out_len` samples in `channels`
/// channels (it then adds the voices and clamps every sample).
pub fn clears_output(channels: usize, out_len: usize) -> (clears: bool)
    ensures
        clears == spec_clears_output(channels as int, out_len as int),
{
    channels != 0 && out_len != 0
}

/// Frames that `s` contributes to an output of `out_frames` frames.
pub open spec fn mix_frames(s: SoundState, out_frames: int) -> int {
    let left = s.clip.frames_count - s.cursor;
    if out_frames < left {
        out_frames
    } else {
        left
    }
}

/// The voice after one buffer of `out_frames` frames, if it still plays.
pub open spec fn next_voice(s: SoundState, out_frames: int) -> Option<SoundState> {
    let cursor = s.cursor + mix_frames(s, out_frames);
    if cursor < s.clip.frames_count {
        Some(SoundState { clip: s.clip, cursor: cursor as usize })
    } else {
        None
    }
}

/// What `s` adds to an output of `out_frames` frames, if anything.
pub open spec fn voice_span(s: SoundState, out_frames: int) -> Option<MixSpan> {
    let frames = mix_frames(s, out_frames);
    if frames > 0 {
        Some(
            MixSpan {
                src_start: (s.clip.offset + s.cursor * s.clip.channel_count) as usize,
                src_channels: s.clip.channel_count,
                frames: frames as usize,
            },
        )
    } else {
        None
    }
}

/// The voices of `voices`, from index `i` on, in the order a buffer of
/// `out_frames` frames visits them: a voice that keeps playing is replaced in
/// place by its advanced state and the next index is visited; a voice that
/// stops is replaced by the last voice, which is visited next.
pub open spec fn visit_order(voices: Seq<SoundState>, i: int, out_frames: int) -> Seq<SoundState>
    decreases voices.len() - i,
{
    if i < 0 || i >= voices.len() {
        Seq::empty()
    } else {
        let s = voices[i];
        match next_voice(s, out_frames) {
            Some(v) => seq![s] + visit_order(voices.update(i, v), i + 1, out_frames),
            None => seq![s] + visit_order(
                voices.update(i, voices.last()).drop_last(),
                i,
                out_frames,
            ),
        }
    }
}

pub open spec fn next_voice_fn(out_frames: int) -> spec_fn(SoundState) -> Option<SoundState> {
    |s: SoundState| next_voice(s, out_frames)
}

pub open spec fn voice_span_fn(out_frames: int) -> spec_fn(SoundState) -> Option<MixSpan> {
    |s: SoundState| voice_span(s, out_frames)
}

/// Whether a buffer of `out_len` samples with `channels` channels gets
/// cleared (and then mixed into and clamped).
pub open spec fn spec_clears_output(channels: int, out_len: int) -> bool {
    channels != 0 && out_len != 0
}

/// Whether `mix` walks the voices for this buffer.
pub open spec fn spec_mixes(channels: int, out_len: int, voices: int) -> bool {
    spec_clears_output(channels, out_len) && voices != 0 && out_len / channels != 0
}

/// Each span adds at least one frame, fits in an output of `out_len`
/// samples in `channels` channels, and is what one of `before` adds to it.
pub open spec fn spans_come_from(
    before: Seq<SoundState>,
    spans: Seq<MixSpan>,
    channels: int,
    out_len: int,
) -> bool {
    forall|j: int|
        #![trigger spans[j]]
        0 <= j < spans.len() ==> {
            &&& 1 <= spans[j].frames
            &&& spans[j].frames * channels <= out_len
            &&& exists|k: int|
                0 <= k < before.len() && voice_span(before[k], out_len / channels) == Some(spans[j])
        }
}

/// Each voice of `after` has frames left and is one of `before` advanced by
/// a buffer of `out_frames` frames.
pub open spec fn voices_come_from(
    before: Seq<SoundState>,
    after: Seq<SoundState>,
    out_frames: int,
) -> bool {
    forall|j: int|
        #![trigger after[j]]
        0 <= j < after.len() ==> {
            &&& after[j].cursor < after[j].clip.frames_count
            &&& exists|k: int|
                0 <= k < before.len() && next_voice(before[k], out_frames) == Some(after[j])
        }
}

/// The voices that are playing.
pub struct Mixer {
    sounds: Vec<SoundState>,
}

proof fn lemma_skip_step<A>(a: Seq<A>, i: int)
    requires
        0 <= i < a.len(),
    ensures
        a.skip(i).to_multiset() =~= a.skip(i + 1).to_multiset().insert(a[i]),
{
    assert(a.skip(i) =~= a.skip(i + 1).insert(0, a[i]));
    vstd::seq_lib::to_multiset_insert(a.skip(i + 1), 0, a[i]);
}

proof fn lemma_swap_remove_skip<A>(a: Seq<A>, i: int)
    requires
        0 <= i < a.len(),
    ensures
        a.update(i, a.last()).drop_last().skip(i).to_multiset() =~= a.skip(i + 1).to_multiset(),
        a.update(i, a.last()).drop_last().take(i) =~= a.take(i),
{
    let r = a.update(i, a.last()).drop_last();
    if i == a.len() - 1 {
        assert(r.skip(i) =~= Seq::<A>::empty());
        assert(a.skip(i + 1) =~= Seq::<A>::empty());
    } else {
        let tail = a.skip(i + 1);
        let x = tail.drop_last();
        assert(r.skip(i) =~= x.insert(0, a.last()));
        assert(tail =~= x.push(a.last()));
        vstd::seq_lib::to_multiset_insert(x, 0, a.last());
        vstd::seq_lib::to_multiset_build(x, a.last());
    }
}

/// An element of `order.filter_map(f)` comes from an element of any
/// rearrangement `base` of `order`.
proof fn lemma_filter_map_source<A, B>(
    order: Seq<A>,
    base: Seq<A>,
    f: spec_fn(A) -> Option<B>,
    j: int,
)
    requires
        order.to_multiset() == base.to_multiset(),
        0 <= j < order.filter_map(f).len(),
    ensures
        exists|k: int| 0 <= k < base.len() && f(base[k]) == Some(order.filter_map(f)[j]),
{
    let elt = order.filter_map(f)[j];
    assert(order.filter_map(f).contains(elt));
    order.lemma_filter_map_contains(f, elt);
    let t = choose|t: A| #[trigger] order.contains(t) && f(t) == Some(elt);
    assert(order.to_multiset().count(t) > 0);
    assert(base.to_multiset().count(t) > 0);
    assert(base.contains(t));
    let k = choose|k: int| 0 <= k < base.len() && base[k] == t;
    assert(f(base[k]) == Some(elt));
}

proof fn lemma_frames_fit(frames: int, channels: int, out_len: int)
    requires
        channels > 0,
        out_len >= 0,
        0 <= frames <= out_len / channels,
    ensures
        frames * channels <= out_len,
{
    assert(frames * channels <= (out_len / channels) * channels) by (nonlinear_arith)
        requires
            channels > 0,
            0 <= frames <= out_len / channels,
    ;
    assert((out_len / channels) * channels <= out_len) by (nonlinear_arith)
        requires
            channels > 0,
            out_len >= 0,
    ;
}

/// The voices visited from index `i` on are exactly those at `i` and after.
pub proof fn lemma_visit_order_multiset(voices: Seq<SoundState>, i: int, out_frames: int)
    requires
        0 <= i <= voices.len(),
    ensures
        visit_order(voices, i, out_frames).to_multiset() =~= voices.skip(i).to_multiset(),
    decreases voices.len() - i,
{
    if i == voices.len() {
        assert(voices.skip(i) =~= Seq::<SoundState>::empty());
    } else {
        let s = voices[i];
        lemma_skip_step(voices, i);
        match next_voice(s, out_frames) {
            Some(v) => {
                let u = voices.update(i, v);
                lemma_visit_order_multiset(u, i + 1, out_frames);
                assert(u.skip(i + 1) =~= voices.skip(i + 1));
                let rest = visit_order(u, i + 1, out_frames);
                assert(seq![s] + rest =~= rest.insert(0, s));
                vstd::seq_lib::to_multiset_insert(rest, 0, s);
            },
            None => {
                let r = voices.update(i, voices.last()).drop_last();
                lemma_swap_remove_skip(voices, i);
                lemma_visit_order_multiset(r, i, out_frames);
                let rest = visit_order(r, i, out_frames);
                assert(seq![s] + rest =~= rest.insert(0, s));
                vstd::seq_lib::to_multiset_insert(rest, 0, s);
            },
        }
    }
}

/// An element that `f` maps to `Some` shows up in `seq.filter_map(f)`.
pub proof fn lemma_filter_map_keeps<A, B>(seq: Seq<A>, f: spec_fn(A) -> Option<B>, t: A)
    requires
        seq.contains(t),
        f(t) is Some,
    ensures
        seq.filter_map(f).contains(f(t)->0),
    decreases seq.len(),
{
    let rest = seq.drop_last();
    if seq.last() == t {
        assert(seq.filter_map(f) == rest.filter_map(f) + seq![f(t)->0]);
        assert(seq.filter_map(f)[rest.filter_map(f).len() as int] == f(t)->0);
    } else {
        let k = choose|k: int| 0 <= k < seq.len() && seq[k] == t;
        assert(rest[k] == t);
        lemma_filter_map_keeps(rest, f, t);
        let j = choose|j: int|
            0 <= j < rest.filter_map(f).len() && rest.filter_map(f)[j] == f(t)->0;
        match f(seq.last()) {
            Some(x) => {
                assert(seq.filter_map(f) == rest.filter_map(f) + seq![x]);
                assert(seq.filter_map(f)[j] == f(t)->0);
            },
            None => {
                assert(seq.filter_map(f) == rest.filter_map(f));
            },
        }
    }
}

impl Mixer {
    pub closed spec fn spec_sounds(self) -> Seq<SoundState> {
        self.sounds@
    }

    /// At most `MAX_ACTIVE_SOUNDS` voices, each readable and in range.
    pub open spec fn wf(self) -> bool {
        &&& self.spec_sounds().len() <= MAX_ACTIVE_SOUNDS
        &&& forall|k: int|
            0 <= k < self.spec_sounds().len() ==> #[trigger] self.spec_sounds()[k].wf()
    }

    /// A mixer with no voice.
    pub fn new() -> (mixer: Self)
        ensures
            mixer.wf(),
            mixer.spec_sounds() == Seq::<SoundState>::empty(),
    {
        Mixer { sounds: Vec::with_capacity(MAX_ACTIVE_SOUNDS) }
    }

    /// The playing voices.
    pub fn sounds(&self) -> (sounds: &Vec<SoundState>)
        ensures
            sounds@ == self.spec_sounds(),
    {
        &self.sounds
    }

    /// Starts a voice of `clip` at its first frame, unless
    /// `MAX_ACTIVE_SOUNDS` voices are already playing. Returns whether it
    /// started.
    pub fn add_sound(&mut self, clip: ClipMap) -> (added: bool)
        requires
            old(self).wf(),
            clip.wf(),
        ensures
            final(self).wf(),
            added == (old(self).spec_sounds().len() < MAX_ACTIVE_SOUNDS),
            added ==> final(self).spec_sounds() == old(self).spec_sounds().push(
                SoundState { clip, cursor: 0 },
            ),
            !added ==> final(self).spec_sounds() == old(self).spec_sounds(),
    {
        if self.sounds.len() >= MAX_ACTIVE_SOUNDS {
            return false;
        }
        self.sounds.push(SoundState { clip, cursor: 0 });
        true
    }

    /// Advances every voice by one output buffer of `out_len` samples in
    /// `channels` channels and returns what each voice adds to it. A voice
    /// that reaches the end of its clip stops and its slot goes to the last
    /// voice. The voices are visited in `visit_order`: the spans come in that
    /// order, and the voices that still play stay in that order.
    #[verifier::spinoff_prover]
    pub fn plan_mix(&mut self, channels: usize, out_len: usize) -> (spans: Vec<MixSpan>)
        requires
            old(self).wf(),
        ensures
            final(self).wf(),
            !spec_mixes(channels as int, out_len as int, old(self).spec_sounds().len() as int)
                ==> final(self).spec_sounds() == old(self).spec_sounds() && spans@.len() == 0,
            spec_mixes(channels as int, out_len as int, old(self).spec_sounds().len() as int)
                ==> {
                let order = visit_order(
                    old(self).spec_sounds(),
                    0,
                    out_len as int / channels as int,
                );
                &&& order.to_multiset() == old(self).spec_sounds().to_multiset()
                &&& final(self).spec_sounds() == order.filter_map(
                    next_voice_fn(out_len as int / channels as int),
                )
                &&& spans@ == order.filter_map(voice_span_fn(out_len as int / channels as int))
            },
            spans_come_from(old(self).spec_sounds(), spans@, channels as int, out_len as int),
            spec_mixes(channels as int, out_len as int, old(self).spec_sounds().len() as int)
                ==> voices_come_from(
                old(self).spec_sounds(),
                final(self).spec_sounds(),
                out_len as int / channels as int,
            ),
    {
        let mut spans: Vec<MixSpan> = Vec::new();
        if channels == 0 || out_len == 0 {
            return spans;
        }
        if self.sounds.len() == 0 {
            return spans;
        }
        let out_frames = out_len / channels;
        if out_frames == 0 {
            return spans;
        }
        let ghost n = out_frames as int;
        let ghost start = self.sounds@;
        let ghost mut order: Seq<SoundState> = Seq::empty();
        let mut i: usize = 0;
        assert(self.sounds@.skip(0) =~= start);
        assert(order + visit_order(start, 0, n) =~= visit_order(start, 0, n));
        while i < self.sounds.len()
            invariant
                n == out_frames as int,
                out_frames > 0,
                0 <= i <= self.sounds@.len() <= MAX_ACTIVE_SOUNDS,
                forall|k: int| 0 <= k < self.sounds@.len() ==> #[trigger] self.sounds@[k].wf(),
                self.sounds@.take(i as int) == order.filter_map(next_voice_fn(n)),
                spans@ == order.filter_map(voice_span_fn(n)),
                order.to_multiset().add(self.sounds@.skip(i as int).to_multiset())
                    =~= start.to_multiset(),
                order + visit_order(self.sounds@, i as int, n) == visit_order(start, 0, n),
            decreases self.sounds@.len() - i,
        {
            let s = self.sounds[i];
            let ghost before = self.sounds@;
            assert(before[i as int].wf());
            let ghost next_order = order.push(s);
            proof {
                lemma_skip_step(before, i as int);
                assert(next_order.drop_last() =~= order);
                assert(next_order.last() == s);
                assert(next_order.to_multiset() =~= order.to_multiset().insert(s));
            }
            let left = s.clip.frames_count - s.cursor;
            let mix = if out_frames < left {
                out_frames
            } else {
                left
            };
            if mix == 0 {
                self.sounds.swap_remove(i);
                proof {
                    lemma_swap_remove_skip(before, i as int);
                    assert(visit_order(before, i as int, n) == seq![s] + visit_order(
                        self.sounds@,
                        i as int,
                        n,
                    ));
                    assert(next_order + visit_order(self.sounds@, i as int, n) =~= order
                        + visit_order(before, i as int, n));
                    order = next_order;
                }
                continue;
            }
            proof {
                assert(s.cursor * s.clip.channel_count <= s.clip.frames_count * s.clip.channel_count)
                    by (nonlinear_arith)
                    requires
                        s.cursor <= s.clip.frames_count,
                ;
            }
            spans.push(
                MixSpan {
                    src_start: s.clip.offset + s.cursor * s.clip.channel_count,
                    src_channels: s.clip.channel_count,
                    frames: mix,
                },
            );
            let cursor = s.cursor + mix;
            if cursor >= s.clip.frames_count {
                self.sounds.swap_remove(i);
                proof {
                    lemma_swap_remove_skip(before, i as int);
                    assert(visit_order(before, i as int, n) == seq![s] + visit_order(
                        self.sounds@,
                        i as int,
                        n,
                    ));
                    assert(next_order + visit_order(self.sounds@, i as int, n) =~= order
                        + visit_order(before, i as int, n));
                }
            } else {
                self.sounds.set(i, SoundState { clip: s.clip, cursor });
                proof {
                    assert(self.sounds@.take(i as int + 1) =~= before.take(i as int).push(
                        SoundState { clip: s.clip, cursor },
                    ));
                    assert(self.sounds@.skip(i as int + 1) =~= before.skip(i as int + 1));
                    assert(visit_order(before, i as int, n) == seq![s] + visit_order(
                        self.sounds@,
                        i as int + 1,
                        n,
                    ));
                    assert(next_order + visit_order(self.sounds@, i as int + 1, n) =~= order
                        + visit_order(before, i as int, n));
                }
                i = i + 1;
            }
            proof {
                order = next_order;
            }
        }
        assert(self.sounds@.take(i as int) =~= self.sounds@);
        assert(self.sounds@.skip(i as int) =~= Seq::<SoundState>::empty());
        assert(order.to_multiset() =~= start.to_multiset());
        assert(order =~= visit_order(start, 0, n));
        assert forall|j: int| #![trigger spans@[j]] 0 <= j < spans@.len() implies {
            &&& 1 <= spans@[j].frames
            &&& spans@[j].frames * channels <= out_len
            &&& exists|k: int|
                0 <= k < start.len() && voice_span(start[k], n) == Some(spans@[j])
        } by {
            lemma_filter_map_source(order, start, voice_span_fn(n), j);
            let k = choose|k: int|
                0 <= k < start.len() && voice_span_fn(n)(start[k]) == Some(spans@[j]);
            assert(voice_span(start[k], n) == Some(spans@[j]));
            lemma_frames_fit(spans@[j].frames as int, channels as int, out_len as int);
        }
        assert forall|j: int| #![trigger self.spec_sounds()[j]] 0 <= j < self.spec_sounds().len() implies {
            &&& self.spec_sounds()[j].cursor < self.spec_sounds()[j].clip.frames_count
            &&& exists|k: int|
                0 <= k < start.len() && next_voice(start[k], n) == Some(self.spec_sounds()[j])
        } by {
            lemma_filter_map_source(order, start, next_voice_fn(n), j);
            let k = choose|k: int|
                0 <= k < start.len() && next_voice_fn(n)(start[k]) == Some(self.sounds@[j]);
            assert(next_voice(start[k], n) == Some(self.sounds@[j]));
        }
        spans
    }
}

} // verus!
