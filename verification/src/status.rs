use vstd::prelude::*;

use crate::clip::MAX_SOUND_COUNT;

verus! {

/// Returned by the entry points when the runtime was not initialised.
pub const ERR_MANAGER_NOT_INIT: i32 = -1;

/// Returned when decoding or starting the stream failed.
pub const ERR_LOAD_FAILED: i32 = -2;

/// Returned for missing pointers, empty data or zero counts.
pub const ERR_INVALID_INPUT: i32 = -3;

/// Returned when more than `MAX_SOUND_COUNT` sounds are loaded at once.
pub const ERR_TOO_MANY_SOUNDS: i32 = -4;

/// Checks the number of sounds of one load call.
pub fn check_load_count(count: usize) -> (r: Result<(), i32>)
    ensures
        count == 0 ==> r == Err::<(), i32>(ERR_INVALID_INPUT),
        count > MAX_SOUND_COUNT ==> r == Err::<(), i32>(ERR_TOO_MANY_SOUNDS),
        1 <= count <= MAX_SOUND_COUNT ==> r is Ok,
{
    if count == 0 || count > MAX_SOUND_COUNT {
        return if count > MAX_SOUND_COUNT {
            Err(ERR_TOO_MANY_SOUNDS)
        } else {
            Err(ERR_INVALID_INPUT)
        };
    }
    Ok(())
}

/// Checks one encoded sound of a load call: its bytes are present and not
/// empty.
pub fn check_encoded_entry(present: bool, len: usize) -> (r: Result<(), i32>)
    ensures
        r is Ok <==> present && len != 0,
        r is Err ==> r == Err::<(), i32>(ERR_INVALID_INPUT),
{
    if !present || len == 0 {
        return Err(ERR_INVALID_INPUT);
    }
    Ok(())
}

/// Checks one raw sound of a load call and returns its sample count: its
/// samples are present, its frame count, channel count and sample rate are
/// not zero, and the sample count fits `usize`.
pub fn check_pcm_entry(present: bool, frames_count: u32, channel_count: u32, sample_rate: u32) -> (r:
    Result<usize, i32>)
    ensures
        r is Ok <==> (present && frames_count != 0 && channel_count != 0 && sample_rate != 0
            && frames_count * channel_count <= usize::MAX),
        r matches Ok(n) ==> n == frames_count * channel_count,
        r is Err ==> r == Err::<usize, i32>(ERR_INVALID_INPUT),
{
    let frames = frames_count as usize;
    let channels = channel_count as usize;
    if !present || frames == 0 || channels == 0 || sample_rate == 0 {
        return Err(ERR_INVALID_INPUT);
    }
    match frames.checked_mul(channels) {
        Some(n) => Ok(n),
        None => Err(ERR_INVALID_INPUT),
    }
}

} // verus!
