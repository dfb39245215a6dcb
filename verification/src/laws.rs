use vstd::prelude::*;

use crate::clip::{ClipMap, SfxHandle, MAX_ACTIVE_SOUNDS};
use crate::decoder::{spec_validate_interleaved, PcmError};
use crate::mixer::{
    lemma_filter_map_keeps, lemma_visit_order_multiset, next_voice, next_voice_fn, spec_mixes,
    visit_order, voice_span, voice_span_fn, MixSpan, SoundState,
};
use crate::player::{after_command, spec_play_command};
use crate::queue::PlayCommand;

verus! {

/// A handle made from an index names that index (taken as a byte): it is
/// not the invalid handle, its index is the index modulo 256, and it is
/// valid for exactly the sound counts above that index.
pub proof fn law_handle_round_trip(index: int, len: int)
    requires
        0 <= index,
        index % 256 != 255,
    ensures
        ({
            let h = SfxHandle(SfxHandle::handle_value_for(index) as u8);
            &&& h.0 != 0
            &&& h.0 - 1 == index % 256
            &&& h.valid_for_len(len) <==> index % 256 < len
        }),
{
}

/// A voice that keeps playing after a buffer filled the whole buffer, and
/// its next span starts in the atlas exactly where this one ended: a voice
/// reads its clip without gaps or repeats.
pub proof fn law_voice_continues_where_it_stopped(s: SoundState, out_frames: int, next_frames: int)
    requires
        s.wf(),
        out_frames > 0,
        next_frames > 0,
        next_voice(s, out_frames) is Some,
    ensures
        voice_span(s, out_frames) is Some,
        ({
            let span = voice_span(s, out_frames)->0;
            let v = next_voice(s, out_frames)->0;
            &&& v.clip == s.clip
            &&& v.cursor == s.cursor + span.frames
            &&& span.frames == out_frames
            &&& voice_span(v, next_frames) is Some
            &&& voice_span(v, next_frames)->0.src_start == span.src_start + span.frames
                * span.src_channels
        }),
{
    let span = voice_span(s, out_frames)->0;
    let c = s.clip.channel_count as int;
    let cur = s.cursor as int;
    let f = span.frames as int;
    assert((cur + f) * c == cur * c + f * c) by (nonlinear_arith);
    assert(cur * c <= s.clip.frames_count * c) by (nonlinear_arith)
        requires
            cur <= s.clip.frames_count,
            c >= 0,
    ;
    assert((cur + f) * c <= s.clip.frames_count * c) by (nonlinear_arith)
        requires
            cur + f <= s.clip.frames_count,
            c >= 0,
    ;
}

/// A voice stops after a buffer exactly when the buffer reaches the end of
/// its clip: its last span ends at the clip's last sample.
pub proof fn law_voice_stops_at_clip_end(s: SoundState, out_frames: int)
    requires
        s.wf(),
        out_frames > 0,
    ensures
        next_voice(s, out_frames) is None <==> s.clip.frames_count - s.cursor <= out_frames,
        next_voice(s, out_frames) is None && voice_span(s, out_frames) is Some ==> ({
            let span = voice_span(s, out_frames)->0;
            span.src_start + span.frames * span.src_channels == s.clip.end()
        }),
        s.cursor == s.clip.frames_count ==> voice_span(s, out_frames) is None && next_voice(
            s,
            out_frames,
        ) is None,
{
    let c = s.clip.channel_count as int;
    let cur = s.cursor as int;
    let total = s.clip.frames_count as int;
    assert(cur * c + (total - cur) * c == total * c) by (nonlinear_arith);
    assert(cur * c <= total * c) by (nonlinear_arith)
        requires
            cur <= total,
            c >= 0,
    ;
}

/// Playing a handle that a load of `loaded` sounds handed out sends a play
/// command for it, and when the audio callback takes that command it starts
/// a voice of that sound's clip at its first frame, if a voice is free. The
/// invalid handle and handles past the loaded sounds send nothing and start
/// nothing.
pub proof fn law_play_starts_named_sound(
    voices: Seq<SoundState>,
    clips: Seq<ClipMap>,
    loaded: int,
    handle: SfxHandle,
)
    requires
        loaded <= clips.len(),
        voices.len() <= MAX_ACTIVE_SOUNDS,
    ensures
        handle.valid_for_len(loaded) ==> spec_play_command(handle, loaded) == Some(
            PlayCommand::Single(handle),
        ),
        handle.valid_for_len(loaded) && voices.len() < MAX_ACTIVE_SOUNDS ==> after_command(
            voices,
            clips,
            loaded,
            PlayCommand::Single(handle),
        ) == voices.push(SoundState { clip: clips[handle.0 - 1], cursor: 0 }),
        handle.valid_for_len(loaded) && voices.len() == MAX_ACTIVE_SOUNDS ==> after_command(
            voices,
            clips,
            loaded,
            PlayCommand::Single(handle),
        ) == voices,
        !handle.valid_for_len(loaded) ==> spec_play_command(handle, loaded) is None
            && after_command(voices, clips, loaded, PlayCommand::Single(handle)) == voices,
{
    if handle.valid_for_len(loaded) {
        let clip = clips[handle.0 - 1];
        if voices.len() < MAX_ACTIVE_SOUNDS {
            assert(after_command(voices, clips, loaded, PlayCommand::Single(handle))
                =~= voices.push(SoundState { clip, cursor: 0 }));
        } else {
            assert(after_command(voices, clips, loaded, PlayCommand::Single(handle)) =~= voices);
        }
    }
}

/// A buffer is mixed exactly when the output has at least one channel,
/// room for at least one whole frame, and at least one voice plays: the
/// number of output channels is not otherwise looked at.
pub proof fn law_buffer_is_mixed_for_any_channel_count(channels: int, out_len: int, voices: int)
    requires
        channels >= 0,
        out_len >= 0,
        voices >= 0,
    ensures
        spec_mixes(channels, out_len, voices) <==> (channels >= 1 && out_len / channels >= 1
            && voices >= 1),
{
    if channels >= 1 && out_len / channels >= 1 {
        assert(out_len >= 1) by (nonlinear_arith)
            requires
                channels >= 1,
                out_len >= 0,
                out_len / channels >= 1,
        ;
    }
}

/// In a buffer of `out_len / channels >= 1` frames, every voice with frames
/// left adds a span of `min(buffer frames, frames left)` frames read from its
/// clip at its cursor, whatever the channel count; a voice with more frames
/// left than the buffer keeps playing, its cursor moved on by the buffer.
pub proof fn law_every_voice_with_frames_left_is_mixed(
    before: Seq<SoundState>,
    channels: int,
    out_len: int,
    k: int,
)
    requires
        channels >= 1,
        out_len >= 0,
        out_len / channels >= 1,
        0 <= k < before.len(),
        before[k].wf(),
        before[k].cursor < before[k].clip.frames_count,
    ensures
        spec_mixes(channels, out_len, before.len() as int),
        ({
            let n = out_len / channels;
            let s = before[k];
            let left = s.clip.frames_count - s.cursor;
            let frames = if n < left {
                n
            } else {
                left
            };
            let order = visit_order(before, 0, n);
            &&& order.filter_map(voice_span_fn(n)).contains(
                MixSpan {
                    src_start: (s.clip.offset + s.cursor * s.clip.channel_count) as usize,
                    src_channels: s.clip.channel_count,
                    frames: frames as usize,
                },
            )
            &&& n < left ==> order.filter_map(next_voice_fn(n)).contains(
                SoundState { clip: s.clip, cursor: (s.cursor + n) as usize },
            )
        }),
{
    broadcast use {
        vstd::seq_lib::group_to_multiset_ensures,
        vstd::multiset::group_multiset_axioms,
    };

    law_buffer_is_mixed_for_any_channel_count(channels, out_len, before.len() as int);
    let n = out_len / channels;
    let s = before[k];
    let order = visit_order(before, 0, n);
    lemma_visit_order_multiset(before, 0, n);
    assert(before.skip(0) =~= before);
    assert(before.contains(s));
    assert(before.to_multiset().count(s) > 0);
    assert(order.to_multiset().count(s) > 0);
    assert(order.contains(s));
    assert(voice_span_fn(n)(s) == voice_span(s, n));
    lemma_filter_map_keeps(order, voice_span_fn(n), s);
    if n < s.clip.frames_count - s.cursor {
        assert(next_voice_fn(n)(s) == next_voice(s, n));
        lemma_filter_map_keeps(order, next_voice_fn(n), s);
    }
}

/// Once the audio callback takes a request to play a loaded sound `count`
/// times, it appends `min(count, free voices)` voices, each of the clip of
/// the sound the handle names, at its first frame, and keeps the voices that
/// were playing. A zero count or a handle that names no loaded sound starts
/// nothing.
pub proof fn law_repeat_starts_named_sound(
    voices: Seq<SoundState>,
    clips: Seq<ClipMap>,
    loaded: int,
    handle: SfxHandle,
    count: u16,
)
    requires
        loaded <= clips.len(),
        voices.len() <= MAX_ACTIVE_SOUNDS,
    ensures
        ({
            let after = after_command(
                voices,
                clips,
                loaded,
                PlayCommand::Repeat { handle, count },
            );
            let room = MAX_ACTIVE_SOUNDS - voices.len();
            let added = if (count as int) < room {
                count as int
            } else {
                room
            };
            &&& count >= 1 && handle.valid_for_len(loaded) ==> {
                &&& after.len() == voices.len() + added
                &&& after.take(voices.len() as int) == voices
                &&& forall|j: int|
                    voices.len() <= j < after.len() ==> #[trigger] after[j] == SoundState {
                        clip: clips[handle.0 - 1],
                        cursor: 0,
                    }
            }
            &&& count == 0 || !handle.valid_for_len(loaded) ==> after == voices
        }),
{
    let after = after_command(voices, clips, loaded, PlayCommand::Repeat { handle, count });
    if count >= 1 && handle.valid_for_len(loaded) {
        assert(after.take(voices.len() as int) =~= voices);
    }
}

/// Caller-supplied interleaved samples are accepted, with `frames *
/// channels` samples, exactly when the frame count, channel count and sample
/// rate are nonzero, the sample count fits `usize` and the data holds exactly
/// that many samples; each refusal names the first check that fails.
pub proof fn law_interleaved_check(data_len: int, frames: int, channels: int, rate: int)
    requires
        data_len >= 0,
        frames >= 0,
        channels >= 0,
        rate >= 0,
    ensures
        ({
            let r = spec_validate_interleaved(data_len, frames, channels, rate);
            &&& r is Ok <==> (frames != 0 && channels != 0 && rate != 0 && frames * channels
                <= usize::MAX && data_len == frames * channels)
            &&& r matches Ok(n) ==> n == frames * channels
            &&& r == Err::<usize, PcmError>(PcmError::ZeroFrames) <==> frames == 0
            &&& r == Err::<usize, PcmError>(PcmError::ZeroChannels) <==> (frames != 0 && channels
                == 0)
            &&& r == Err::<usize, PcmError>(PcmError::ZeroSampleRate) <==> (frames != 0
                && channels != 0 && rate == 0)
            &&& r == Err::<usize, PcmError>(PcmError::SampleCountOverflow) <==> (frames != 0
                && channels != 0 && rate != 0 && frames * channels > usize::MAX)
            &&& r == Err::<usize, PcmError>(PcmError::LengthMismatch) <==> (frames != 0
                && channels != 0 && rate != 0 && frames * channels <= usize::MAX && data_len
                != frames * channels)
        }),
{
}

} // verus!
