//! Low-latency sound-effect playback core: sound handles, the sample atlas
//! layout, the voice mixer's bookkeeping, the play-command queue between the
//! control thread and the audio callback, and the checks applied to decoded
//! or caller-supplied audio.

pub mod clip;
pub mod queue;
pub mod atlas;
pub mod mixer;
pub mod player;
pub mod decoder;
pub mod status;
pub mod laws;
