use vstd::prelude::*;

verus! {

/// Most sounds that one load call may register.
pub const MAX_SOUND_COUNT: usize = 14;

/// Most voices that the mixer plays at the same time.
pub const MAX_ACTIVE_SOUNDS: usize = 256;

/// A handle to a loaded sound: `0` is the invalid handle, `k + 1` names the
/// sound at index `k`.
#[derive(Default, Eq, PartialEq, Structural, Clone, Copy, Hash, Debug)]
pub struct SfxHandle(pub u8);

impl SfxHandle {
    /// The handle value that index `index` maps to: the index truncated to a
    /// byte, plus one.
    pub open spec fn handle_value_for(index: int) -> int {
        index % 256 + 1
    }

    /// Whether `self` names one of the first `len` loaded sounds.
    pub open spec fn valid_for_len(self, len: int) -> bool {
        1 <= self.0 && self.0 - 1 < len
    }

    /// The handle of the sound at `index` (the index is taken modulo 256, as a
    /// byte). An index that is 255 modulo 256 has no handle.
    pub fn from_index(index: usize) -> (handle: Self)
        requires
            index % 256 != 255,
        ensures
            handle.0 == Self::handle_value_for(index as int),
    {
        let byte = index as u8;
        assert(byte == index % 256) by (bit_vector)
            requires
                byte == index as u8;
        Self(byte + 1)
    }

    /// Whether the handle is not the invalid handle `0`.
    pub fn is_valid(self) -> (valid: bool)
        ensures
            valid == (self.0 != 0),
    {
        self.0 != 0
    }

    /// The index of the sound this handle names. The invalid handle has none.
    pub fn index_unchecked(self) -> (index: usize)
        requires
            self.0 != 0,
        ensures
            index == self.0 - 1,
    {
        self.0 as usize - 1
    }

    /// Whether the handle names one of the first `len` loaded sounds.
    pub fn is_valid_for_len(self, len: usize) -> (valid: bool)
        ensures
            valid == self.valid_for_len(len as int),
    {
        self.is_valid() && self.index_unchecked() < len
    }
}

/// Where a loaded sound lies in the sample atlas: `frames_count` frames of
/// `channel_count` interleaved samples each, starting at sample `offset`.
#[derive(Eq, PartialEq, Structural, Clone, Copy, Debug)]
pub struct ClipMap {
    pub offset: usize,
    pub frames_count: usize,
    pub channel_count: usize,
}

impl ClipMap {
    /// Number of samples the clip spans.
    pub open spec fn sample_len(self) -> int {
        self.frames_count * self.channel_count
    }

    /// One past the clip's last sample in the atlas.
    pub open spec fn end(self) -> int {
        self.offset + self.sample_len()
    }

    /// A clip that the mixer can read: at least one channel, and its samples
    /// addressable with `usize`.
    pub open spec fn wf(self) -> bool {
        &&& self.channel_count >= 1
        &&& self.end() <= usize::MAX
    }
}

} // verus!
