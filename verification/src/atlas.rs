use vstd::prelude::*;

use crate::clip::{ClipMap, SfxHandle, MAX_SOUND_COUNT};

verus! {

/// The shape of one decoded (and, where needed, resampled) sound.
#[derive(Eq, PartialEq, Structural, Clone, Copy, Debug)]
pub struct ClipShape {
    pub frames_count: usize,
    pub channel_count: usize,
}

/// Samples of a sound of the given shape.
pub open spec fn shape_samples(shape: ClipShape) -> int {
    shape.frames_count * shape.channel_count
}

/// `x` rounded up to a multiple of 16 (clips start on 16-sample boundaries).
pub open spec fn align_up_16(x: int) -> int {
    if x % 16 == 0 {
        x
    } else {
        x + 16 - x % 16
    }
}

/// Length of an atlas holding `shapes` in order, each clip starting on the
/// first 16-sample boundary at or after the end of the one before.
pub open spec fn layout_end(shapes: Seq<ClipShape>) -> int
    decreases shapes.len(),
{
    if shapes.len() == 0 {
        0
    } else {
        align_up_16(layout_end(shapes.drop_last())) + shape_samples(shapes.last())
    }
}

/// Where clip `k` of `shapes` starts in the atlas.
pub open spec fn layout_offset(shapes: Seq<ClipShape>, k: int) -> int {
    align_up_16(layout_end(shapes.take(k)))
}

/// The clip map that the atlas gives to sound `k` of `shapes`.
pub open spec fn layout_clip(shapes: Seq<ClipShape>, k: int) -> ClipMap {
    ClipMap {
        offset: layout_offset(shapes, k) as usize,
        frames_count: shapes[k].frames_count,
        channel_count: shapes[k].channel_count,
    }
}

/// The layout of the sample atlas: one clip per loaded sound, in load order.
pub struct AtlasLayout {
    clips: Vec<ClipMap>,
    total_len: usize,
}

impl AtlasLayout {
    pub closed spec fn spec_clips(self) -> Seq<ClipMap> {
        self.clips@
    }

    pub closed spec fn spec_total_len(self) -> int {
        self.total_len as int
    }

    /// Every clip is readable, starts on a 16-sample boundary, lies inside
    /// the atlas, and ends before the next one starts.
    pub open spec fn wf(self) -> bool {
        &&& forall|k: int|
            #![trigger self.spec_clips()[k]]
            0 <= k < self.spec_clips().len() ==> {
                &&& self.spec_clips()[k].wf()
                &&& self.spec_clips()[k].offset % 16 == 0
                &&& self.spec_clips()[k].end() <= self.spec_total_len()
            }
        &&& forall|j: int, k: int|
            0 <= j < k < self.spec_clips().len() ==> #[trigger] self.spec_clips()[j].end()
                <= #[trigger] self.spec_clips()[k].offset
    }
}

proof fn lemma_align_up_16(x: int)
    requires
        x >= 0,
    ensures
        x <= align_up_16(x) < x + 16,
        align_up_16(x) % 16 == 0,
{
}

proof fn lemma_layout_end_monotone(shapes: Seq<ClipShape>, k: int)
    requires
        0 <= k <= shapes.len(),
    ensures
        0 <= layout_end(shapes.take(k)) <= layout_end(shapes),
    decreases shapes.len(),
{
    if shapes.len() > 0 {
        let rest = shapes.drop_last();
        if k == shapes.len() {
            assert(shapes.take(k) =~= shapes);
            lemma_layout_end_monotone(rest, rest.len() as int);
            assert(rest.take(rest.len() as int) =~= rest);
        } else {
            lemma_layout_end_monotone(rest, k);
            assert(rest.take(k) =~= shapes.take(k));
        }
        lemma_layout_end_monotone(rest, 0);
        assert(rest.take(0) =~= Seq::<ClipShape>::empty());
        lemma_align_up_16(layout_end(rest));
        assert(shape_samples(shapes.last()) >= 0) by (nonlinear_arith)
            requires
                shapes.last().frames_count >= 0,
                shapes.last().channel_count >= 0,
        ;
    } else {
        assert(shapes.take(k) =~= shapes);
    }
}

impl AtlasLayout {
    /// Lays the sounds out one after another, each starting on a 16-sample
    /// boundary. At most `MAX_SOUND_COUNT` sounds are laid out at once.
    /// `None` exactly when the atlas would not be addressable with `usize`.
    pub fn build_from_shapes(shapes: &Vec<ClipShape>) -> (layout: Option<AtlasLayout>)
        requires
            shapes.len() <= MAX_SOUND_COUNT,
            forall|k: int| 0 <= k < shapes.len() ==> #[trigger] shapes[k].channel_count >= 1,
        ensures
            layout is None <==> layout_end(shapes@) > usize::MAX,
            layout matches Some(l) ==> {
                &&& l.wf()
                &&& l.spec_total_len() == layout_end(shapes@)
                &&& l.spec_clips().len() == shapes.len()
                &&& forall|k: int|
                    0 <= k < shapes.len() ==> #[trigger] l.spec_clips()[k] == layout_clip(
                        shapes@,
                        k,
                    )
            },
    {
        let mut clips: Vec<ClipMap> = Vec::new();
        let mut len: usize = 0;
        let mut i: usize = 0;
        while i < shapes.len()
            invariant
                0 <= i <= shapes.len(),
                forall|k: int| 0 <= k < shapes.len() ==> #[trigger] shapes[k].channel_count >= 1,
                len == layout_end(shapes@.take(i as int)),
                clips@.len() == i,
                forall|k: int| 0 <= k < i ==> #[trigger] clips@[k] == layout_clip(shapes@, k),
                forall|k: int|
                    #![trigger clips@[k]]
                    0 <= k < i ==> {
                        &&& clips@[k].wf()
                        &&& clips@[k].offset % 16 == 0
                        &&& clips@[k].end() <= len
                    },
                forall|j: int, k: int|
                    0 <= j < k < i ==> #[trigger] clips@[j].end() <= #[trigger] clips@[k].offset,
            decreases shapes.len() - i,
        {
            let shape = shapes[i];
            let ghost prefix = shapes@.take(i as int);
            let ghost next = shapes@.take(i as int + 1);
            assert(next.drop_last() =~= prefix);
            assert(next.last() == shape);
            proof {
                lemma_align_up_16(len as int);
                lemma_layout_end_monotone(shapes@, i as int + 1);
            }
            let rem = len % 16;
            let pad: usize = if rem == 0 { 0 } else { 16 - rem };
            let offset = match len.checked_add(pad) {
                Some(v) => v,
                None => {
                    return None;
                },
            };
            let samples = match shape.frames_count.checked_mul(shape.channel_count) {
                Some(v) => v,
                None => {
                    assert(shape_samples(shape) > usize::MAX);
                    return None;
                },
            };
            let end = match offset.checked_add(samples) {
                Some(v) => v,
                None => {
                    return None;
                },
            };
            assert(layout_offset(shapes@, i as int) == offset);
            let clip = ClipMap {
                offset,
                frames_count: shape.frames_count,
                channel_count: shape.channel_count,
            };
            assert(clip.end() == end);
            assert(forall|j: int| 0 <= j < i ==> #[trigger] clips@[j].end() <= offset);
            let ghost before = clips@;
            clips.push(clip);
            assert forall|j: int, k: int|
                0 <= j < k < i + 1 implies #[trigger] clips@[j].end() <= #[trigger] clips@[k].offset by {
                if k == i {
                    assert(clips@[j] == before[j]);
                }
            }
            len = end;
            i = i + 1;
        }
        assert(shapes@.take(shapes.len() as int) =~= shapes@);
        Some(AtlasLayout { clips, total_len: len })
    }

    /// The clips of the loaded sounds, in load order.
    pub fn clips(&self) -> (clips: &Vec<ClipMap>)
        ensures
            clips@ == self.spec_clips(),
    {
        &self.clips
    }

    /// Length of the atlas in samples.
    pub fn total_len(&self) -> (len: usize)
        ensures
            len == self.spec_total_len(),
    {
        self.total_len
    }

    /// Number of clips.
    pub fn len(&self) -> (n: usize)
        ensures
            n == self.spec_clips().len(),
    {
        self.clips.len()
    }

    /// The clip that a valid handle names.
    pub fn clip_unchecked(&self, handle: SfxHandle) -> (clip: ClipMap)
        requires
            handle.valid_for_len(self.spec_clips().len() as int),
        ensures
            clip == self.spec_clips()[handle.0 - 1],
    {
        self.clips[handle.index_unchecked()]
    }
}

} // verus!
