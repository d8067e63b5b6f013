//! The inbound pipeline: discovery, per-device readers, and the fan-out to
//! subscribers; and what the runtime handle keeps to shut all of it down.

use vstd::prelude::*;

pub mod broadcaster;
pub mod delivery;
pub mod device_scanner;
pub mod input_scanner;
pub mod listening_device;

verus! {

/// The value that is sent on a stop channel.
pub const STOP: u8 = 0;

/// How many items each channel of the pipeline buffers before a send has to
/// wait.
pub const CHANNEL_CAPACITY: usize = 100;

/// The send ends of the stop channels of the tasks that a handle has started.
///
/// Each task gets a channel of its own when it is spawned. On teardown the
/// handle drains the collection and signals every channel it gets.
pub struct StopSignals<S> {
    pending: Vec<S>,
}

impl<S> View for StopSignals<S> {
    type V = Seq<S>;

    /// The channels that have not been signalled, oldest first.
    closed spec fn view(&self) -> Seq<S> {
        self.pending@
    }
}

impl<S> StopSignals<S> {
    /// No task has been started.
    pub fn new() -> (signals: Self)
        ensures
            signals@ == Seq::<S>::empty(),
    {
        StopSignals { pending: Vec::new() }
    }

    /// The number of channels that have not been signalled.
    pub fn len(&self) -> (n: usize)
        ensures
            n == self@.len(),
    {
        self.pending.len()
    }

    /// Keeps the send end of the stop channel of a task that is about to
    /// start.
    pub fn register(&mut self, sender: S)
        ensures
            final(self)@ == old(self)@.push(sender),
    {
        self.pending.push(sender);
    }

    /// Hands out every channel that has not been signalled, oldest first, and
    /// keeps none: each channel is handed out once.
    pub fn drain(&mut self) -> (senders: Vec<S>)
        ensures
            senders@ == old(self)@,
            final(self)@ == Seq::<S>::empty(),
    {
        let mut senders: Vec<S> = Vec::new();
        std::mem::swap(&mut self.pending, &mut senders);
        senders
    }
}

} // verus!
