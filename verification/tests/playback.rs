use unm_sfx::atlas::{AtlasLayout, ClipShape};
use unm_sfx::clip::{ClipMap, SfxHandle, MAX_ACTIVE_SOUNDS, MAX_SOUND_COUNT};
use unm_sfx::mixer::{clears_output, frame_route, FrameRoute, MixSpan, Mixer, SoundState};
use unm_sfx::player::{play_command, repeat_command, CallbackState, PlayerControl};
use unm_sfx::queue::PlayCommand;

fn clip(offset: usize, frames_count: usize, channel_count: usize) -> ClipMap {
    ClipMap { offset, frames_count, channel_count }
}

#[test]
fn handle_from_index_is_index_plus_one() {
    assert_eq!(SfxHandle::from_index(0), SfxHandle(1));
    assert_eq!(SfxHandle::from_index(13), SfxHandle(14));
    assert_eq!(SfxHandle::from_index(256), SfxHandle(1));
    assert_eq!(SfxHandle::from_index(254), SfxHandle(255));
}

#[test]
fn handle_round_trip() {
    for i in 0..MAX_SOUND_COUNT {
        let h = SfxHandle::from_index(i);
        assert!(h.is_valid());
        assert_eq!(h.index_unchecked(), i);
        assert!(h.is_valid_for_len(i + 1));
        assert!(!h.is_valid_for_len(i));
    }
}

#[test]
fn zero_handle_is_invalid() {
    let h = SfxHandle::default();
    assert!(!h.is_valid());
    assert!(!h.is_valid_for_len(0));
    assert!(!h.is_valid_for_len(14));
    assert!(SfxHandle(3).is_valid_for_len(3));
    assert!(!SfxHandle(4).is_valid_for_len(3));
}

#[test]
fn atlas_layout_aligns_clips_to_16_samples() {
    let shapes = vec![
        ClipShape { frames_count: 10, channel_count: 1 },
        ClipShape { frames_count: 3, channel_count: 2 },
        ClipShape { frames_count: 5, channel_count: 3 },
    ];
    let layout = AtlasLayout::build_from_shapes(&shapes).unwrap();
    assert_eq!(layout.len(), 3);
    assert_eq!(layout.clips()[0], clip(0, 10, 1));
    assert_eq!(layout.clips()[1], clip(16, 3, 2));
    assert_eq!(layout.clips()[2], clip(32, 5, 3));
    assert_eq!(layout.total_len(), 47);
    assert_eq!(layout.clip_unchecked(SfxHandle(2)), clip(16, 3, 2));
}

#[test]
fn atlas_layout_of_aligned_sizes_has_no_padding() {
    let shapes = vec![
        ClipShape { frames_count: 16, channel_count: 2 },
        ClipShape { frames_count: 8, channel_count: 2 },
    ];
    let layout = AtlasLayout::build_from_shapes(&shapes).unwrap();
    assert_eq!(layout.clips()[1].offset, 32);
    assert_eq!(layout.total_len(), 48);
}

#[test]
fn atlas_layout_empty_and_overflowing() {
    let layout = AtlasLayout::build_from_shapes(&Vec::new()).unwrap();
    assert_eq!(layout.len(), 0);
    assert_eq!(layout.total_len(), 0);
    let too_big = vec![ClipShape { frames_count: usize::MAX, channel_count: 2 }];
    assert!(AtlasLayout::build_from_shapes(&too_big).is_none());
    let too_big_sum = vec![
        ClipShape { frames_count: usize::MAX - 8, channel_count: 1 },
        ClipShape { frames_count: 1, channel_count: 1 },
    ];
    assert!(AtlasLayout::build_from_shapes(&too_big_sum).is_none());
}

#[test]
fn mixer_add_sound_stops_at_capacity() {
    let mut mixer = Mixer::new();
    for _ in 0..MAX_ACTIVE_SOUNDS {
        assert!(mixer.add_sound(clip(0, 4, 1)));
    }
    assert!(!mixer.add_sound(clip(0, 4, 1)));
    assert_eq!(mixer.sounds().len(), MAX_ACTIVE_SOUNDS);
    assert_eq!(mixer.sounds()[0], SoundState { clip: clip(0, 4, 1), cursor: 0 });
}

#[test]
fn mixer_plan_advances_and_drops_finished_voices() {
    let mut mixer = Mixer::new();
    mixer.add_sound(clip(0, 10, 1));
    mixer.add_sound(clip(16, 3, 2));
    let spans = mixer.plan_mix(1, 4);
    assert_eq!(
        spans,
        vec![
            MixSpan { src_start: 0, src_channels: 1, frames: 4 },
            MixSpan { src_start: 16, src_channels: 2, frames: 3 },
        ]
    );
    assert_eq!(mixer.sounds().len(), 1);
    assert_eq!(mixer.sounds()[0], SoundState { clip: clip(0, 10, 1), cursor: 4 });

    let spans = mixer.plan_mix(2, 8);
    assert_eq!(spans, vec![MixSpan { src_start: 4, src_channels: 1, frames: 4 }]);
    assert_eq!(mixer.sounds()[0].cursor, 8);

    let spans = mixer.plan_mix(2, 100);
    assert_eq!(spans, vec![MixSpan { src_start: 8, src_channels: 1, frames: 2 }]);
    assert!(mixer.sounds().is_empty());
}

#[test]
fn mixer_plan_visits_swapped_voice_next() {
    let mut mixer = Mixer::new();
    mixer.add_sound(clip(0, 2, 1));
    mixer.add_sound(clip(16, 8, 1));
    mixer.add_sound(clip(32, 8, 1));
    let spans = mixer.plan_mix(1, 4);
    assert_eq!(
        spans,
        vec![
            MixSpan { src_start: 0, src_channels: 1, frames: 2 },
            MixSpan { src_start: 32, src_channels: 1, frames: 4 },
            MixSpan { src_start: 16, src_channels: 1, frames: 4 },
        ]
    );
    assert_eq!(mixer.sounds()[0], SoundState { clip: clip(32, 8, 1), cursor: 4 });
    assert_eq!(mixer.sounds()[1], SoundState { clip: clip(16, 8, 1), cursor: 4 });
}

#[test]
fn mixer_plan_without_room_does_nothing() {
    let mut mixer = Mixer::new();
    mixer.add_sound(clip(0, 10, 2));
    assert!(mixer.plan_mix(0, 8).is_empty());
    assert!(mixer.plan_mix(2, 0).is_empty());
    assert!(mixer.plan_mix(4, 3).is_empty());
    assert_eq!(mixer.sounds()[0].cursor, 0);
    assert!(!clears_output(0, 8));
    assert!(!clears_output(2, 0));
    assert!(clears_output(4, 3));
}

#[test]
fn mixer_drops_empty_clip_without_span() {
    let mut mixer = Mixer::new();
    mixer.add_sound(clip(0, 0, 1));
    assert!(mixer.plan_mix(1, 4).is_empty());
    assert!(mixer.sounds().is_empty());
}

#[test]
fn frame_routes() {
    assert_eq!(frame_route(1, 1), FrameRoute::MonoToMono);
    assert_eq!(frame_route(1, 6), FrameRoute::MonoToAll);
    assert_eq!(frame_route(6, 1), FrameRoute::AverageToMono);
    assert_eq!(frame_route(2, 2), FrameRoute::StereoToStereo);
    assert_eq!(frame_route(2, 6), FrameRoute::StereoWithMid);
    assert_eq!(frame_route(6, 2), FrameRoute::ResidualToStereo);
    assert_eq!(frame_route(4, 4), FrameRoute::Matched);
    assert_eq!(frame_route(3, 6), FrameRoute::CopyAndFillMono);
    assert_eq!(frame_route(6, 3), FrameRoute::CopyAndSpreadRest);
}

#[test]
fn commands_for_play_requests() {
    assert_eq!(play_command(SfxHandle(1), 1), Some(PlayCommand::Single(SfxHandle(1))));
    assert_eq!(play_command(SfxHandle(2), 1), None);
    assert_eq!(play_command(SfxHandle(0), 3), None);
    assert_eq!(
        repeat_command(SfxHandle(1), 3, 2),
        Some(PlayCommand::Repeat { handle: SfxHandle(1), count: 3 })
    );
    assert_eq!(repeat_command(SfxHandle(1), 0, 2), None);
    assert_eq!(repeat_command(SfxHandle(3), 1, 2), None);
}

fn two_clip_atlas() -> AtlasLayout {
    AtlasLayout::build_from_shapes(&vec![
        ClipShape { frames_count: 4, channel_count: 1 },
        ClipShape { frames_count: 2, channel_count: 2 },
    ])
    .unwrap()
}

#[test]
fn control_registers_handles() {
    let mut control = PlayerControl::new();
    assert_eq!(control.loaded_sound_count(), 0);
    assert!(!control.has_sources());
    let handles = control.register_sources(3).unwrap();
    assert_eq!(handles, vec![SfxHandle(1), SfxHandle(2), SfxHandle(3)]);
    assert_eq!(control.loaded_sound_count(), 3);
    assert!(control.register_sources(MAX_SOUND_COUNT + 1).is_none());
    assert_eq!(control.loaded_sound_count(), 3);
    control.shutdown();
    assert_eq!(control.loaded_sound_count(), 0);
}

#[test]
fn play_reaches_the_callback() {
    let mut control = PlayerControl::new();
    let handles = control.register_sources(2).unwrap();
    let receiver = control.take_receiver().unwrap();
    assert!(control.take_receiver().is_none());
    let mut state = CallbackState::new(receiver, two_clip_atlas(), 2, 2);

    control.play(handles[1]);
    control.play(SfxHandle(0));
    control.play(SfxHandle(3));
    assert_eq!(state.drain_once(), 1);
    assert_eq!(state.drain_once(), 0);
    assert_eq!(state.voices().len(), 1);
    assert_eq!(state.voices()[0], SoundState { clip: clip(16, 2, 2), cursor: 0 });

    let spans = state.plan_mix(8);
    assert_eq!(spans, vec![MixSpan { src_start: 16, src_channels: 2, frames: 2 }]);
    assert!(state.voices().is_empty());
}

#[test]
fn repeat_play_starts_several_voices() {
    let mut control = PlayerControl::new();
    control.register_sources(2).unwrap();
    let receiver = control.take_receiver().unwrap();
    let mut state = CallbackState::new(receiver, two_clip_atlas(), 1, 2);
    control.submit_frame_play_count(SfxHandle(1), 5);
    control.submit_frame_play_count(SfxHandle(1), 0);
    assert_eq!(state.drain_once(), 1);
    assert_eq!(state.voices().len(), 5);
    for v in state.voices() {
        assert_eq!(*v, SoundState { clip: clip(0, 4, 1), cursor: 0 });
    }
}

#[test]
fn full_queue_drops_requests() {
    let mut control = PlayerControl::new();
    control.register_sources(1).unwrap();
    let receiver = control.take_receiver().unwrap();
    let mut state = CallbackState::new(receiver, two_clip_atlas(), 1, 1);
    for _ in 0..300 {
        control.play(SfxHandle(1));
    }
    assert_eq!(state.drain_once(), 256);
    assert_eq!(state.drain_once(), 0);
    assert_eq!(state.voices().len(), MAX_ACTIVE_SOUNDS);
}

#[test]
fn apply_commands_handles_a_prefix_in_order() {
    let mut control = PlayerControl::new();
    let receiver = control.take_receiver().unwrap();
    let mut state = CallbackState::new(receiver, two_clip_atlas(), 1, 2);
    let commands = vec![
        PlayCommand::Single(SfxHandle(2)),
        PlayCommand::Empty,
        PlayCommand::Repeat { handle: SfxHandle(1), count: 2 },
        PlayCommand::Single(SfxHandle(1)),
    ];
    state.apply_commands(&commands, 3);
    assert_eq!(state.voices().len(), 3);
    assert_eq!(state.voices()[0].clip, clip(16, 2, 2));
    assert_eq!(state.voices()[1].clip, clip(0, 4, 1));
    assert_eq!(state.voices()[2].clip, clip(0, 4, 1));
}

#[test]
fn reset_queue_drops_pending_commands() {
    let mut control = PlayerControl::new();
    control.register_sources(1).unwrap();
    let old_receiver = control.take_receiver().unwrap();
    control.play(SfxHandle(1));
    control.reset_queue();
    let receiver = control.take_receiver().unwrap();
    let mut state = CallbackState::new(receiver, two_clip_atlas(), 1, 1);
    assert_eq!(state.drain_once(), 0);
    control.play(SfxHandle(1));
    assert_eq!(state.drain_once(), 1);
    drop(old_receiver);
}

#[test]
fn maintain_decides_rebuilds() {
    let mut control = PlayerControl::new();
    assert!(!control.maintain(false, false));
    assert!(!control.maintain(true, false));
    control.register_sources(1).unwrap();
    assert!(control.maintain(false, false));
    assert!(!control.maintain(false, true));
    assert!(control.maintain(true, true));
}
