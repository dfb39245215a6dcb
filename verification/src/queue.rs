use vstd::prelude::*;
use ringbuf::traits::{Consumer, Producer, Split};
use ringbuf::{HeapCons, HeapProd, HeapRb};

use crate::clip::SfxHandle;

verus! {

/// Capacity of the queue that carries play commands to the audio callback.
pub const COMMAND_QUEUE_CAPACITY: usize = 256;

/// A request sent from the control thread to the audio callback.
#[derive(Default, Eq, PartialEq, Structural, Clone, Copy, Debug)]
pub enum PlayCommand {
    /// Does nothing.
    #[default]
    Empty,
    /// Start one voice of the sound.
    Single(SfxHandle),
    /// Start `count` voices of the sound at once.
    Repeat { handle: SfxHandle, count: u16 },
}

/// The producing half of the command queue, owned by the control thread.
/// It keeps `ringbuf`'s producer in a private field and exposes nothing of
/// it but the history named by `sent_commands`.
#[verifier::external_body]
pub struct CommandSender {
    producer: HeapProd<PlayCommand>,
}

/// The consuming half of the command queue, owned by the audio callback.
#[verifier::external_body]
pub struct CommandReceiver {
    consumer: HeapCons<PlayCommand>,
}

/// Every command that was accepted through this producing half, oldest
/// first, since its queue was made.
pub uninterp spec fn sent_commands(sender: CommandSender) -> Seq<PlayCommand>;

/// Every command that was taken out through this consuming half, oldest
/// first, since its queue was made.
pub uninterp spec fn received_commands(receiver: CommandReceiver) -> Seq<PlayCommand>;

/// Makes a ring buffer of `capacity` commands with `HeapRb::new` (which
/// panics on a zero capacity) and splits it into its two halves with
/// `Split::split`. Claimed: neither half has moved a command yet.
#[verifier::external_body]
pub(crate) fn new_command_queue(capacity: usize) -> (halves: (CommandSender, CommandReceiver))
    requires
        capacity > 0,
    ensures
        sent_commands(halves.0) == Seq::<PlayCommand>::empty(),
        received_commands(halves.1) == Seq::<PlayCommand>::empty(),
{
    let (producer, consumer) = HeapRb::<PlayCommand>::new(capacity).split();
    (CommandSender { producer }, CommandReceiver { consumer })
}

/// Calls `Producer::try_push`. Claimed: on `Ok` the command was appended to
/// what this half has sent; on `Err` (the queue was full, which depends on
/// the other thread) the command comes back and nothing was sent. A queue is
/// full only when it holds as many commands as its capacity, which is at
/// least one, and only this half puts commands in: so `Err` can come only
/// after this half has sent at least one command.
#[verifier::external_body]
pub(crate) fn push_command(sender: &mut CommandSender, command: PlayCommand) -> (r:
    Result<(), PlayCommand>)
    ensures
        r is Ok ==> sent_commands(*final(sender)) == sent_commands(*old(sender)).push(command),
        r matches Err(back) ==> back == command && sent_commands(*final(sender))
            == sent_commands(*old(sender)),
        r is Err ==> sent_commands(*old(sender)).len() > 0,
{
    sender.producer.try_push(command)
}

/// Calls `Consumer::pop_slice` on the whole of `buf`. Claimed: it returns how
/// many commands it took out (at most `buf.len()`); those are written, oldest
/// first, to the front of `buf`, the rest of `buf` is untouched, and they are
/// appended to what this half has received. How many are waiting depends on
/// the other thread and is not stated.
#[verifier::external_body]
pub(crate) fn pop_commands(receiver: &mut CommandReceiver, buf: &mut Vec<PlayCommand>) -> (count:
    usize)
    ensures
        count <= old(buf).len(),
        final(buf).len() == old(buf).len(),
        forall|i: int| count <= i < old(buf).len() ==> final(buf)[i] == old(buf)[i],
        received_commands(*final(receiver)) == received_commands(*old(receiver))
            + final(buf)@.take(count as int),
{
    receiver.consumer.pop_slice(buf.as_mut_slice())
}

} // verus!
