//! Channel endpoints used for all inter-node communication, taken from
//! crossbeam_channel. Channels are shared with other threads, so nothing can
//! be assumed about what a receive operation yields: every handler of the
//! library is verified for every value a channel may hand back.

use vstd::prelude::*;

verus! {

#[verifier::external_type_specification]
#[verifier::external_body]
#[verifier::reject_recursive_types(T)]
pub struct ExSender<T>(crossbeam_channel::Sender<T>);

#[verifier::external_type_specification]
#[verifier::external_body]
#[verifier::reject_recursive_types(T)]
pub struct ExReceiver<T>(crossbeam_channel::Receiver<T>);

/// What a biased receive over two channels yielded.
pub enum BiasedRecv<A, B> {
    /// A message from the preferred channel.
    First(A),
    /// A message from the other channel.
    Second(B),
    /// Both channels are empty and all their senders were dropped.
    Closed,
}

/// Relies on crossbeam_channel's Sender::send: delivers the message unless
/// every receiver was dropped. Reports whether the channel accepted it.
#[verifier::external_body]
pub fn channel_send<T>(sender: &crossbeam_channel::Sender<T>, message: T) -> (accepted: bool) {
    sender.send(message).is_ok()
}

/// Relies on crossbeam_channel's Receiver::recv: blocks until a message
/// arrives, or yields nothing once the channel is empty and closed.
#[verifier::external_body]
pub fn channel_recv<T>(receiver: &crossbeam_channel::Receiver<T>) -> (r: Option<T>) {
    receiver.recv().ok()
}

/// Relies on crossbeam_channel's Receiver::try_iter: takes every message
/// queued right now, in arrival order, without blocking.
#[verifier::external_body]
pub fn channel_drain<T>(receiver: &crossbeam_channel::Receiver<T>) -> (r: Vec<T>) {
    receiver.try_iter().collect()
}

/// Relies on crossbeam_channel's Receiver::try_recv and Select: blocks until
/// one of the two channels has a message and takes it, always preferring the
/// first channel when both hold one, so control traffic is never starved.
#[verifier::external_body]
pub fn channel_recv_biased<A, B>(
    first: &crossbeam_channel::Receiver<A>,
    second: &crossbeam_channel::Receiver<B>,
) -> (r: BiasedRecv<A, B>) {
    loop {
        let e1 = match first.try_recv() { Ok(a) => return BiasedRecv::First(a), Err(e) => e };
        let e2 = match second.try_recv() { Ok(b) => return BiasedRecv::Second(b), Err(e) => e };
        if e1.is_disconnected() && e2.is_disconnected() {
            return BiasedRecv::Closed;
        }
        let mut ready = crossbeam_channel::Select::new_biased();
        ready.recv(first);
        ready.recv(second);
        let _ = ready.ready();
    }
}

} // verus!
