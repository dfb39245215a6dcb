use vstd::prelude::*;

use crate::atlas::AtlasLayout;
use crate::clip::{ClipMap, SfxHandle, MAX_ACTIVE_SOUNDS, MAX_SOUND_COUNT};
use crate::mixer::{
    next_voice, spans_come_from, voice_span, voices_come_from, MixSpan, Mixer, SoundState, spec_mixes,
};
use crate::queue::{
    new_command_queue, pop_commands, push_command, received_commands, sent_commands,
    CommandReceiver, CommandSender, PlayCommand, COMMAND_QUEUE_CAPACITY,
};

verus! {

/// `voices` with up to `count` new voices of `clip` appended, as many as fit
/// under `MAX_ACTIVE_SOUNDS`.
pub open spec fn start_voices(voices: Seq<SoundState>, clip: ClipMap, count: int) -> Seq<
    SoundState,
> {
    let room = MAX_ACTIVE_SOUNDS - voices.len();
    let added = if count < room {
        count
    } else {
        room
    };
    voices + Seq::new(added as nat, |i: int| SoundState { clip, cursor: 0 })
}

/// The voices after the audio callback handles `command`, given the atlas
/// clips and the number of loaded sounds. A command for a handle that does
/// not name a loaded sound, or that asks for no voice, changes nothing.
pub open spec fn after_command(
    voices: Seq<SoundState>,
    clips: Seq<ClipMap>,
    loaded: int,
    command: PlayCommand,
) -> Seq<SoundState> {
    match command {
        PlayCommand::Empty => voices,
        PlayCommand::Single(handle) => if handle.valid_for_len(loaded) {
            start_voices(voices, clips[handle.0 - 1], 1)
        } else {
            voices
        },
        PlayCommand::Repeat { handle, count } => if count != 0 && handle.valid_for_len(loaded) {
            start_voices(voices, clips[handle.0 - 1], count as int)
        } else {
            voices
        },
    }
}

/// The voices after the audio callback handles `commands` in order.
pub open spec fn after_commands(
    voices: Seq<SoundState>,
    clips: Seq<ClipMap>,
    loaded: int,
    commands: Seq<PlayCommand>,
) -> Seq<SoundState>
    decreases commands.len(),
{
    if commands.len() == 0 {
        voices
    } else {
        after_command(
            after_commands(voices, clips, loaded, commands.drop_last()),
            clips,
            loaded,
            commands.last(),
        )
    }
}

/// The command that `play` sends for `handle` when `loaded` sounds are
/// loaded, if any.
pub open spec fn spec_play_command(handle: SfxHandle, loaded: int) -> Option<PlayCommand> {
    if handle.valid_for_len(loaded) {
        Some(PlayCommand::Single(handle))
    } else {
        None
    }
}

/// The command that `submit_frame_play_count` sends, if any.
pub open spec fn spec_repeat_command(handle: SfxHandle, count: u16, loaded: int) -> Option<
    PlayCommand,
> {
    if count != 0 && handle.valid_for_len(loaded) {
        Some(PlayCommand::Repeat { handle, count })
    } else {
        None
    }
}

/// The command for playing `handle` once, if it names a loaded sound.
pub fn play_command(handle: SfxHandle, loaded: usize) -> (command: Option<PlayCommand>)
    ensures
        command == spec_play_command(handle, loaded as int),
{
    if !handle.is_valid_for_len(loaded) {
        return None;
    }
    Some(PlayCommand::Single(handle))
}

/// The command for playing `handle` `count` times in one frame, if `count`
/// is not zero and `handle` names a loaded sound.
pub fn repeat_command(handle: SfxHandle, count: u16, loaded: usize) -> (command: Option<
    PlayCommand,
>)
    ensures
        command == spec_repeat_command(handle, count, loaded as int),
{
    if count == 0 || !handle.is_valid_for_len(loaded) {
        return None;
    }
    Some(PlayCommand::Repeat { handle, count })
}

/// The audio callback's state: the receiving end of the command queue, the
/// voices, and the layout of the atlas they read from.
pub struct CallbackState {
    receiver: CommandReceiver,
    mixer: Mixer,
    atlas: AtlasLayout,
    pending: Vec<PlayCommand>,
    channels: usize,
    loaded_sound_count: usize,
}

impl CallbackState {
    pub closed spec fn spec_voices(self) -> Seq<SoundState> {
        self.mixer.spec_sounds()
    }

    pub closed spec fn spec_atlas(self) -> AtlasLayout {
        self.atlas
    }

    pub closed spec fn spec_receiver(self) -> CommandReceiver {
        self.receiver
    }

    pub closed spec fn spec_channels(self) -> int {
        self.channels as int
    }

    pub closed spec fn spec_loaded(self) -> int {
        self.loaded_sound_count as int
    }

    pub closed spec fn spec_pending_len(self) -> int {
        self.pending@.len() as int
    }

    /// The mixer and the atlas are well formed, every loaded sound has a
    /// clip, and every voice plays one of the atlas clips.
    pub open spec fn wf(self) -> bool {
        &&& self.spec_voices().len() <= MAX_ACTIVE_SOUNDS
        &&& forall|k: int| 0 <= k < self.spec_voices().len() ==> #[trigger] self.spec_voices()[k].wf()
        &&& self.spec_atlas().wf()
        &&& self.spec_loaded() <= self.spec_atlas().spec_clips().len()
        &&& forall|k: int|
            0 <= k < self.spec_voices().len() ==> self.spec_atlas().spec_clips().contains(
                (#[trigger] self.spec_voices()[k]).clip,
            )
    }

    /// Well formed, with a full-size buffer for commands taken from the queue.
    pub open spec fn ready(self) -> bool {
        &&& self.wf()
        &&& self.spec_pending_len() == COMMAND_QUEUE_CAPACITY
    }

    /// A callback with no voice, reading the atlas `atlas` of which the
    /// first `loaded_sound_count` clips can be played, into an output of
    /// `channels` channels.
    pub fn new(
        receiver: CommandReceiver,
        atlas: AtlasLayout,
        channels: usize,
        loaded_sound_count: usize,
    ) -> (state: Self)
        requires
            atlas.wf(),
            loaded_sound_count <= atlas.spec_clips().len(),
        ensures
            state.ready(),
            state.spec_voices() == Seq::<SoundState>::empty(),
            state.spec_atlas() == atlas,
            state.spec_receiver() == receiver,
            state.spec_channels() == channels,
            state.spec_loaded() == loaded_sound_count,
    {
        let mut pending: Vec<PlayCommand> = Vec::with_capacity(COMMAND_QUEUE_CAPACITY);
        let mut i: usize = 0;
        while i < COMMAND_QUEUE_CAPACITY
            invariant
                i <= COMMAND_QUEUE_CAPACITY,
                pending@.len() == i,
            decreases COMMAND_QUEUE_CAPACITY - i,
        {
            pending.push(PlayCommand::Empty);
            i = i + 1;
        }
        CallbackState {
            receiver,
            mixer: Mixer::new(),
            atlas,
            pending,
            channels,
            loaded_sound_count,
        }
    }

    /// The playing voices.
    pub fn voices(&self) -> (voices: &Vec<SoundState>)
        ensures
            voices@ == self.spec_voices(),
    {
        self.mixer.sounds()
    }

    /// The atlas layout the voices read from.
    pub fn atlas(&self) -> (atlas: &AtlasLayout)
        ensures
            *atlas == self.spec_atlas(),
    {
        &self.atlas
    }

    /// Output channels.
    pub fn channels(&self) -> (channels: usize)
        ensures
            channels == self.spec_channels(),
    {
        self.channels
    }

    /// Starts one voice of the sound `handle` names, if it names a loaded
    /// sound and a voice is free.
    pub fn enqueue_single(&mut self, handle: SfxHandle)
        requires
            old(self).wf(),
        ensures
            final(self).wf(),
            final(self).spec_voices() == after_command(
                old(self).spec_voices(),
                old(self).spec_atlas().spec_clips(),
                old(self).spec_loaded(),
                PlayCommand::Single(handle),
            ),
            final(self).spec_atlas() == old(self).spec_atlas(),
            final(self).spec_receiver() == old(self).spec_receiver(),
            final(self).spec_channels() == old(self).spec_channels(),
            final(self).spec_loaded() == old(self).spec_loaded(),
            final(self).spec_pending_len() == old(self).spec_pending_len(),
    {
        if !handle.is_valid_for_len(self.loaded_sound_count) {
            return;
        }
        let clip = self.atlas.clip_unchecked(handle);
        proof {
            assert(self.atlas.spec_clips()[handle.0 - 1].wf());
        }
        let ghost before = self.mixer.spec_sounds();
        let added = self.mixer.add_sound(clip);
        proof {
            let room = MAX_ACTIVE_SOUNDS - before.len();
            if added {
                assert(self.mixer.spec_sounds() =~= before + Seq::new(
                    1,
                    |i: int| SoundState { clip, cursor: 0 },
                ));
            } else {
                assert(room == 0);
                assert(self.mixer.spec_sounds() =~= before + Seq::new(
                    0,
                    |i: int| SoundState { clip, cursor: 0 },
                ));
            }
            assert forall|k: int| 0 <= k < self.spec_voices().len() implies self.spec_atlas().spec_clips().contains(
                (#[trigger] self.spec_voices()[k]).clip,
            ) by {
                if k < before.len() {
                    assert(self.spec_voices()[k] == old(self).spec_voices()[k]);
                } else {
                    assert(self.spec_atlas().spec_clips()[handle.0 - 1] == self.spec_voices()[k].clip);
                }
            }
        }
    }

    /// Starts up to `count` voices of the sound `handle` names, stopping
    /// when no voice is free; nothing when `count` is zero or the handle
    /// names no loaded sound.
    pub fn enqueue_repeat(&mut self, handle: SfxHandle, count: u16)
        requires
            old(self).wf(),
        ensures
            final(self).wf(),
            final(self).spec_voices() == after_command(
                old(self).spec_voices(),
                old(self).spec_atlas().spec_clips(),
                old(self).spec_loaded(),
                PlayCommand::Repeat { handle, count },
            ),
            final(self).spec_atlas() == old(self).spec_atlas(),
            final(self).spec_receiver() == old(self).spec_receiver(),
            final(self).spec_channels() == old(self).spec_channels(),
            final(self).spec_loaded() == old(self).spec_loaded(),
            final(self).spec_pending_len() == old(self).spec_pending_len(),
    {
        if count == 0 || !handle.is_valid_for_len(self.loaded_sound_count) {
            return;
        }
        let clip = self.atlas.clip_unchecked(handle);
        proof {
            assert(self.atlas.spec_clips()[handle.0 - 1].wf());
        }
        let ghost before = self.mixer.spec_sounds();
        let mut j: u16 = 0;
        while j < count
            invariant
                0 <= j <= count,
                clip.wf(),
                handle.valid_for_len(self.atlas.spec_clips().len() as int),
                clip == self.atlas.spec_clips()[handle.0 - 1],
                self.mixer.wf(),
                self.atlas == old(self).atlas,
                self.receiver == old(self).receiver,
                self.channels == old(self).channels,
                self.loaded_sound_count == old(self).loaded_sound_count,
                self.pending == old(self).pending,
                before == old(self).spec_voices(),
                before.len() <= MAX_ACTIVE_SOUNDS,
                self.mixer.spec_sounds() == start_voices(before, clip, j as int),
            ensures
                self.mixer.spec_sounds() == start_voices(before, clip, count as int),
            decreases count - j,
        {
            if !self.mixer.add_sound(clip) {
                assert(start_voices(before, clip, count as int) =~= start_voices(
                    before,
                    clip,
                    j as int,
                ));
                break;
            }
            assert(self.mixer.spec_sounds() =~= start_voices(before, clip, j as int + 1));
            j = j + 1;
        }
        proof {
            assert forall|k: int| 0 <= k < self.spec_voices().len() implies self.spec_atlas().spec_clips().contains(
                (#[trigger] self.spec_voices()[k]).clip,
            ) by {
                if k < before.len() {
                    assert(self.spec_voices()[k] == old(self).spec_voices()[k]);
                } else {
                    assert(self.spec_atlas().spec_clips()[handle.0 - 1] == self.spec_voices()[k].clip);
                }
            }
        }
    }

    /// Handles one command.
    pub fn apply_command(&mut self, command: PlayCommand)
        requires
            old(self).wf(),
        ensures
            final(self).wf(),
            final(self).spec_voices() == after_command(
                old(self).spec_voices(),
                old(self).spec_atlas().spec_clips(),
                old(self).spec_loaded(),
                command,
            ),
            final(self).spec_atlas() == old(self).spec_atlas(),
            final(self).spec_receiver() == old(self).spec_receiver(),
            final(self).spec_channels() == old(self).spec_channels(),
            final(self).spec_loaded() == old(self).spec_loaded(),
            final(self).spec_pending_len() == old(self).spec_pending_len(),
    {
        match command {
            PlayCommand::Empty => {},
            PlayCommand::Single(handle) => self.enqueue_single(handle),
            PlayCommand::Repeat { handle, count } => self.enqueue_repeat(handle, count),
        }
    }

    /// Handles the first `count` of `commands`, in order.
    pub fn apply_commands(&mut self, commands: &Vec<PlayCommand>, count: usize)
        requires
            old(self).wf(),
            count <= commands.len(),
        ensures
            final(self).wf(),
            final(self).spec_voices() == after_commands(
                old(self).spec_voices(),
                old(self).spec_atlas().spec_clips(),
                old(self).spec_loaded(),
                commands@.take(count as int),
            ),
            final(self).spec_atlas() == old(self).spec_atlas(),
            final(self).spec_receiver() == old(self).spec_receiver(),
            final(self).spec_channels() == old(self).spec_channels(),
            final(self).spec_loaded() == old(self).spec_loaded(),
            final(self).spec_pending_len() == old(self).spec_pending_len(),
    {
        let ghost start = self.spec_voices();
        let mut i: usize = 0;
        assert(commands@.take(0) =~= Seq::<PlayCommand>::empty());
        while i < count
            invariant
                0 <= i <= count <= commands.len(),
                self.wf(),
                self.spec_voices() == after_commands(
                    start,
                    old(self).spec_atlas().spec_clips(),
                    old(self).spec_loaded(),
                    commands@.take(i as int),
                ),
                self.spec_atlas() == old(self).spec_atlas(),
                self.spec_receiver() == old(self).spec_receiver(),
                self.spec_channels() == old(self).spec_channels(),
                self.spec_loaded() == old(self).spec_loaded(),
                self.spec_pending_len() == old(self).spec_pending_len(),
            decreases count - i,
        {
            let command = commands[i];
            self.apply_command(command);
            assert(commands@.take(i as int + 1).drop_last() =~= commands@.take(i as int));
            i = i + 1;
        }
    }

    /// Takes what waits in the command queue (at most
    /// `COMMAND_QUEUE_CAPACITY` commands) and handles it in order. Returns
    /// how many commands it took.
    pub fn drain_once(&mut self) -> (count: usize)
        requires
            old(self).ready(),
        ensures
            final(self).ready(),
            count <= COMMAND_QUEUE_CAPACITY,
            received_commands(final(self).spec_receiver()).len() == received_commands(
                old(self).spec_receiver(),
            ).len() + count,
            received_commands(final(self).spec_receiver()).take(
                received_commands(old(self).spec_receiver()).len() as int,
            ) == received_commands(old(self).spec_receiver()),
            final(self).spec_voices() == after_commands(
                old(self).spec_voices(),
                old(self).spec_atlas().spec_clips(),
                old(self).spec_loaded(),
                received_commands(final(self).spec_receiver()).skip(
                    received_commands(old(self).spec_receiver()).len() as int,
                ),
            ),
            final(self).spec_atlas() == old(self).spec_atlas(),
            final(self).spec_channels() == old(self).spec_channels(),
            final(self).spec_loaded() == old(self).spec_loaded(),
    {
        let mut pending: Vec<PlayCommand> = Vec::new();
        std::mem::swap(&mut pending, &mut self.pending);
        let ghost before_rx = received_commands(self.receiver);
        let count = pop_commands(&mut self.receiver, &mut pending);
        let ghost after_rx = received_commands(self.receiver);
        assert(after_rx.skip(before_rx.len() as int) =~= pending@.take(count as int));
        assert(after_rx.take(before_rx.len() as int) =~= before_rx);
        self.apply_commands(&pending, count);
        self.pending = pending;
        count
    }
}

/// A span reads only samples of the atlas and writes only samples of the
/// output buffer.
pub open spec fn span_in_bounds(span: MixSpan, atlas_len: int, channels: int, out_len: int) -> bool {
    &&& span.src_channels >= 1
    &&& 1 <= span.frames
    &&& span.src_start + span.frames * span.src_channels <= atlas_len
    &&& span.frames * channels <= out_len
}

proof fn lemma_voice_span_in_clip(s: SoundState, out_frames: int)
    requires
        s.wf(),
        out_frames > 0,
        voice_span(s, out_frames) is Some,
    ensures
        ({
            let span = voice_span(s, out_frames)->0;
            span.src_start + span.frames * span.src_channels <= s.clip.end()
        }),
{
    let span = voice_span(s, out_frames)->0;
    let c = s.clip.channel_count as int;
    let cur = s.cursor as int;
    let f = span.frames as int;
    let total = s.clip.frames_count as int;
    assert(cur * c + f * c <= total * c) by (nonlinear_arith)
        requires
            cur + f <= total,
            c >= 0,
    ;
    assert(cur * c <= total * c) by (nonlinear_arith)
        requires
            cur <= total,
            c >= 0,
    ;
}

impl CallbackState {
    /// Advances the voices by one output buffer of `out_len` samples (see
    /// `Mixer::plan_mix`) and returns the spans to add into it. Every span
    /// reads inside the atlas and writes inside the buffer.
    #[verifier::spinoff_prover]
    pub fn plan_mix(&mut self, out_len: usize) -> (spans: Vec<MixSpan>)
        requires
            old(self).wf(),
        ensures
            final(self).wf(),
            final(self).spec_atlas() == old(self).spec_atlas(),
            final(self).spec_receiver() == old(self).spec_receiver(),
            final(self).spec_channels() == old(self).spec_channels(),
            final(self).spec_loaded() == old(self).spec_loaded(),
            final(self).spec_pending_len() == old(self).spec_pending_len(),
            !spec_mixes(old(self).spec_channels(), out_len as int, old(self).spec_voices().len() as int)
                ==> final(self).spec_voices() == old(self).spec_voices() && spans@.len() == 0,
            spec_mixes(old(self).spec_channels(), out_len as int, old(self).spec_voices().len() as int)
                ==> {
                let order = crate::mixer::visit_order(
                    old(self).spec_voices(),
                    0,
                    out_len as int / old(self).spec_channels(),
                );
                &&& order.to_multiset() == old(self).spec_voices().to_multiset()
                &&& final(self).spec_voices() == order.filter_map(
                    crate::mixer::next_voice_fn(out_len as int / old(self).spec_channels()),
                )
                &&& spans@ == order.filter_map(
                    crate::mixer::voice_span_fn(out_len as int / old(self).spec_channels()),
                )
            },
            spans_come_from(old(self).spec_voices(), spans@, old(self).spec_channels(), out_len as int),
            forall|j: int|
                0 <= j < spans@.len() ==> span_in_bounds(
                    #[trigger] spans@[j],
                    old(self).spec_atlas().spec_total_len(),
                    old(self).spec_channels(),
                    out_len as int,
                ),
    {
        let ghost before = self.mixer.spec_sounds();
        let spans = self.mixer.plan_mix(self.channels, out_len);
        proof {
            let n = out_len as int / self.channels as int;
            assert forall|j: int| 0 <= j < spans@.len() implies span_in_bounds(
                #[trigger] spans@[j],
                self.atlas.spec_total_len(),
                self.channels as int,
                out_len as int,
            ) by {
                let k = choose|k: int|
                    0 <= k < before.len() && voice_span(before[k], n) == Some(spans@[j]);
                assert(old(self).spec_voices()[k] == before[k]);
                assert(before[k].wf());
                lemma_voice_span_in_clip(before[k], n);
                let c = choose|c: int|
                    0 <= c < self.atlas.spec_clips().len() && self.atlas.spec_clips()[c]
                        == before[k].clip;
                assert(self.atlas.spec_clips()[c].end() <= self.atlas.spec_total_len());
            }
            if spec_mixes(self.channels as int, out_len as int, before.len() as int) {
                assert forall|k: int| 0 <= k < self.spec_voices().len() implies self.spec_atlas().spec_clips().contains(
                    (#[trigger] self.spec_voices()[k]).clip,
                ) by {
                    assert(voices_come_from(before, self.mixer.spec_sounds(), n));
                    assert(self.mixer.spec_sounds()[k] == self.spec_voices()[k]);
                    let i = choose|i: int|
                        0 <= i < before.len() && next_voice(before[i], n) == Some(
                            self.mixer.spec_sounds()[k],
                        );
                    assert(old(self).spec_voices()[i] == before[i]);
                }
            }
        }
        spans
    }
}

/// The control thread's side of the player: the sending end of the command
/// queue, the receiving end until a stream takes it, and how many sounds are
/// loaded (`None` before the first load and after shutdown).
pub struct PlayerControl {
    sender: CommandSender,
    receiver: Option<CommandReceiver>,
    loaded: Option<usize>,
}

impl PlayerControl {
    pub closed spec fn spec_sender(self) -> CommandSender {
        self.sender
    }

    pub closed spec fn spec_receiver(self) -> Option<CommandReceiver> {
        self.receiver
    }

    pub closed spec fn spec_loaded(self) -> Option<usize> {
        self.loaded
    }

    /// Number of loaded sounds; zero when none are loaded.
    pub open spec fn spec_loaded_count(self) -> int {
        match self.spec_loaded() {
            Some(n) => n as int,
            None => 0,
        }
    }

    /// A fresh, empty command queue with its receiving end held here.
    pub open spec fn fresh_queue(self) -> bool {
        &&& sent_commands(self.spec_sender()) == Seq::<PlayCommand>::empty()
        &&& self.spec_receiver() matches Some(r) && received_commands(r) == Seq::<
            PlayCommand,
        >::empty()
    }

    /// No sound loaded and a fresh queue.
    pub fn new() -> (control: Self)
        ensures
            control.fresh_queue(),
            control.spec_loaded() is None,
    {
        let (sender, receiver) = new_command_queue(COMMAND_QUEUE_CAPACITY);
        PlayerControl { sender, receiver: Some(receiver), loaded: None }
    }

    /// Replaces the command queue with a fresh one; commands not yet taken
    /// are dropped.
    pub fn reset_queue(&mut self)
        ensures
            final(self).fresh_queue(),
            final(self).spec_loaded() == old(self).spec_loaded(),
    {
        let (sender, receiver) = new_command_queue(COMMAND_QUEUE_CAPACITY);
        self.sender = sender;
        self.receiver = Some(receiver);
    }

    /// Number of loaded sounds; zero when none are loaded.
    pub fn loaded_sound_count(&self) -> (n: usize)
        ensures
            n == self.spec_loaded_count(),
    {
        match self.loaded {
            Some(n) => n,
            None => 0,
        }
    }

    /// Whether sounds are loaded, so that a stream can be built.
    pub fn has_sources(&self) -> (loaded: bool)
        ensures
            loaded == self.spec_loaded() is Some,
    {
        self.loaded.is_some()
    }

    /// Hands out the receiving end of the queue, for a new stream.
    pub fn take_receiver(&mut self) -> (receiver: Option<CommandReceiver>)
        ensures
            receiver == old(self).spec_receiver(),
            final(self).spec_receiver() is None,
            final(self).spec_sender() == old(self).spec_sender(),
            final(self).spec_loaded() == old(self).spec_loaded(),
    {
        self.receiver.take()
    }

    /// Records that `count` sounds are loaded and returns their handles, the
    /// handle of sound `i` being `i + 1`; `None`, with nothing changed, when
    /// there are more than `MAX_SOUND_COUNT`.
    pub fn register_sources(&mut self, count: usize) -> (handles: Option<Vec<SfxHandle>>)
        ensures
            handles is None <==> count > MAX_SOUND_COUNT,
            handles is None ==> *final(self) == *old(self),
            handles matches Some(hs) ==> {
                &&& hs@.len() == count
                &&& forall|i: int| 0 <= i < count ==> (#[trigger] hs@[i]).0 == i + 1
                &&& forall|i: int| 0 <= i < count ==> (#[trigger] hs@[i]).valid_for_len(count as int)
                &&& final(self).spec_loaded() == Some(count)
                &&& final(self).spec_sender() == old(self).spec_sender()
                &&& final(self).spec_receiver() == old(self).spec_receiver()
            },
    {
        if count > MAX_SOUND_COUNT {
            return None;
        }
        let mut handles: Vec<SfxHandle> = Vec::with_capacity(count);
        let mut i: usize = 0;
        while i < count
            invariant
                i <= count <= MAX_SOUND_COUNT,
                handles@.len() == i,
                forall|k: int| 0 <= k < i ==> (#[trigger] handles@[k]).0 == k + 1,
            decreases count - i,
        {
            handles.push(SfxHandle::from_index(i));
            i = i + 1;
        }
        self.loaded = Some(count);
        Some(handles)
    }

    /// Asks the audio callback to start one voice of `handle`, if it names a
    /// loaded sound. The request is dropped only when the queue is full,
    /// which cannot happen before anything was sent through it.
    pub fn play(&mut self, handle: SfxHandle)
        ensures
            final(self).spec_loaded() == old(self).spec_loaded(),
            final(self).spec_receiver() == old(self).spec_receiver(),
            match spec_play_command(handle, old(self).spec_loaded_count()) {
                Some(command) => sent_commands(final(self).spec_sender()) == sent_commands(
                    old(self).spec_sender(),
                ).push(command) || (sent_commands(final(self).spec_sender()) == sent_commands(
                    old(self).spec_sender(),
                ) && sent_commands(old(self).spec_sender()).len() > 0),
                None => final(self).spec_sender() == old(self).spec_sender(),
            },
    {
        let loaded = self.loaded_sound_count();
        if let Some(command) = play_command(handle, loaded) {
            let _ = push_command(&mut self.sender, command);
        }
    }

    /// Asks the audio callback to start `count` voices of `handle` at once,
    /// if `count` is not zero and `handle` names a loaded sound. The request
    /// is dropped only when the queue is full, which cannot happen before
    /// anything was sent through it.
    pub fn submit_frame_play_count(&mut self, handle: SfxHandle, count: u16)
        ensures
            final(self).spec_loaded() == old(self).spec_loaded(),
            final(self).spec_receiver() == old(self).spec_receiver(),
            match spec_repeat_command(handle, count, old(self).spec_loaded_count()) {
                Some(command) => sent_commands(final(self).spec_sender()) == sent_commands(
                    old(self).spec_sender(),
                ).push(command) || (sent_commands(final(self).spec_sender()) == sent_commands(
                    old(self).spec_sender(),
                ) && sent_commands(old(self).spec_sender()).len() > 0),
                None => final(self).spec_sender() == old(self).spec_sender(),
            },
    {
        let loaded = self.loaded_sound_count();
        if let Some(command) = repeat_command(handle, count, loaded) {
            let _ = push_command(&mut self.sender, command);
        }
    }

    /// Forgets the loaded sounds and replaces the queue with a fresh one.
    pub fn shutdown(&mut self)
        ensures
            final(self).fresh_queue(),
            final(self).spec_loaded() is None,
    {
        self.reset_queue();
        self.loaded = None;
    }

    /// The control side of the periodic stream check: after a lost device
    /// the queue is replaced. Returns whether a stream must be built: sounds
    /// are loaded and the stream was lost or is not running.
    pub fn maintain(&mut self, device_lost: bool, stream_running: bool) -> (rebuild: bool)
        ensures
            rebuild == (old(self).spec_loaded() is Some && (device_lost || !stream_running)),
            final(self).spec_loaded() == old(self).spec_loaded(),
            device_lost ==> final(self).fresh_queue(),
            !device_lost ==> *final(self) == *old(self),
    {
        if device_lost {
            self.reset_queue();
        }
        self.loaded.is_some() && (device_lost || !stream_running)
    }
}

} // verus!
