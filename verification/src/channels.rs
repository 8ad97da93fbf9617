//! Trusted declarations of the bounded channel that carries status events
//! to listeners and the stop signal to the spinner.

use vstd::prelude::*;

verus! {

/// Declares async_channel::Sender so channel ends can stand in fields and
/// signatures; the value is opaque here.
#[verifier::external_type_specification]
#[verifier::external_body]
#[verifier::reject_recursive_types(T)]
pub struct ExSender<T>(async_channel::Sender<T>);

/// Declares async_channel::Receiver, likewise opaque.
#[verifier::external_type_specification]
#[verifier::external_body]
#[verifier::reject_recursive_types(T)]
pub struct ExReceiver<T>(async_channel::Receiver<T>);

/// Outcome of one non-blocking send on a bounded channel.
#[derive(Clone, Copy, PartialEq, Eq, Structural, Debug)]
pub enum TrySendOutcome {
    /// The message was queued.
    Sent,
    /// The channel was full; the message was dropped.
    Full,
    /// Every receiver is gone; the message was dropped.
    Closed,
}

/// Relies on async_channel::bounded: creates a bounded channel. A zero
/// capacity panics there, so it is excluded here.
#[verifier::external_body]
pub(crate) fn channel_bounded<T>(cap: usize) -> (r: (
    async_channel::Sender<T>,
    async_channel::Receiver<T>,
))
    requires
        cap >= 1,
{
    async_channel::bounded(cap)
}

/// Relies on async_channel::Sender::try_send: queues the message, or
/// reports the channel full or closed. Which outcome occurs depends on the
/// channel's current state, so nothing is promised of it.
#[verifier::external_body]
pub(crate) fn channel_try_send<T>(s: &async_channel::Sender<T>, value: T) -> (r: TrySendOutcome) {
    match s.try_send(value) {
        Ok(()) => TrySendOutcome::Sent,
        Err(async_channel::TrySendError::Full(_)) => TrySendOutcome::Full,
        Err(async_channel::TrySendError::Closed(_)) => TrySendOutcome::Closed,
    }
}

} // verus!
