use unm_sfx::decoder::{
    select_track, validate_interleaved, DecodeError, DecodeProgress, DecodedShape, PcmError,
    TrackSummary,
};
use unm_sfx::status::{
    check_encoded_entry, check_load_count, check_pcm_entry, ERR_INVALID_INPUT, ERR_TOO_MANY_SOUNDS,
};

#[test]
fn interleaved_shape_checks() {
    assert_eq!(validate_interleaved(8, 4, 2, 48_000), Ok(8));
    assert_eq!(validate_interleaved(8, 0, 2, 48_000), Err(PcmError::ZeroFrames));
    assert_eq!(validate_interleaved(8, 4, 0, 48_000), Err(PcmError::ZeroChannels));
    assert_eq!(validate_interleaved(8, 4, 2, 0), Err(PcmError::ZeroSampleRate));
    assert_eq!(validate_interleaved(8, usize::MAX, 2, 1), Err(PcmError::SampleCountOverflow));
    assert_eq!(validate_interleaved(7, 4, 2, 44_100), Err(PcmError::LengthMismatch));
}

#[test]
fn first_decodable_track_is_selected() {
    let tracks = vec![
        TrackSummary { id: 1, has_codec: false, sample_rate: Some(44_100) },
        TrackSummary { id: 2, has_codec: true, sample_rate: None },
        TrackSummary { id: 3, has_codec: true, sample_rate: Some(48_000) },
        TrackSummary { id: 4, has_codec: true, sample_rate: Some(22_050) },
    ];
    assert_eq!(select_track(&tracks), Some(2));
    assert_eq!(select_track(&tracks[..2].to_vec()), None);
    assert_eq!(select_track(&Vec::new()), None);
}

#[test]
fn decode_progress_collects_frames() {
    let mut progress = DecodeProgress::new();
    assert_eq!(progress.finish(), Err(DecodeError::EmptyStream));
    assert_eq!(progress.record_buffer(2, 100), Ok(()));
    assert_eq!(progress.record_buffer(2, 50), Ok(()));
    assert_eq!(progress.sample_count(), 300);
    assert_eq!(progress.record_buffer(1, 10), Err(DecodeError::InconsistentChannels));
    assert_eq!(progress.sample_count(), 300);
    assert_eq!(progress.finish(), Ok(DecodedShape { frames_count: 150, channel_count: 2 }));
}

#[test]
fn decode_progress_zero_channels() {
    let mut progress = DecodeProgress::new();
    assert_eq!(progress.record_buffer(0, 10), Ok(()));
    assert_eq!(progress.finish(), Err(DecodeError::ZeroChannels));
}

#[test]
fn load_status_codes() {
    assert_eq!(check_load_count(0), Err(ERR_INVALID_INPUT));
    assert_eq!(check_load_count(1), Ok(()));
    assert_eq!(check_load_count(14), Ok(()));
    assert_eq!(check_load_count(15), Err(ERR_TOO_MANY_SOUNDS));
    assert_eq!(check_encoded_entry(true, 10), Ok(()));
    assert_eq!(check_encoded_entry(false, 10), Err(ERR_INVALID_INPUT));
    assert_eq!(check_encoded_entry(true, 0), Err(ERR_INVALID_INPUT));
    assert_eq!(check_pcm_entry(true, 100, 2, 44_100), Ok(200));
    assert_eq!(check_pcm_entry(false, 100, 2, 44_100), Err(ERR_INVALID_INPUT));
    assert_eq!(check_pcm_entry(true, 0, 2, 44_100), Err(ERR_INVALID_INPUT));
    assert_eq!(check_pcm_entry(true, 100, 0, 44_100), Err(ERR_INVALID_INPUT));
    assert_eq!(check_pcm_entry(true, 100, 2, 0), Err(ERR_INVALID_INPUT));
    assert_eq!(check_pcm_entry(true, u32::MAX, u32::MAX, 1), Ok(u32::MAX as usize * u32::MAX as usize));
}
