//! The crossbeam channels that carry interrupts, finished nodes and the
//! messages of local publishers, subscribers, clients and servers.

use vstd::prelude::*;

use crossbeam::channel::{Receiver, SendError, Sender};

verus! {

#[verifier::external_type_specification]
#[verifier::external_body]
#[verifier::reject_recursive_types(T)]
pub struct ExCrossbeamSender<T>(crossbeam::channel::Sender<T>);

#[verifier::external_type_specification]
#[verifier::external_body]
#[verifier::reject_recursive_types(T)]
pub struct ExCrossbeamReceiver<T>(crossbeam::channel::Receiver<T>);

/// Calls `crossbeam::channel::unbounded`: creates a new unbounded channel.
/// Nothing is claimed of the two ends.
#[verifier::external_body]
pub(crate) fn unbounded_channel<T>() -> (Sender<T>, Receiver<T>) {
    crossbeam::channel::unbounded()
}

/// Calls `crossbeam::channel::Receiver::try_recv`: takes a message if one is
/// waiting.  What comes back depends on other threads, so nothing is claimed
/// of it.
#[verifier::external_body]
pub(crate) fn try_receive<T>(rx: &Receiver<T>) -> Option<T> {
    match rx.try_recv() {
        Ok(v) => Some(v),
        Err(_) => None,
    }
}

#[verifier::external_type_specification]
#[verifier::external_body]
#[verifier::reject_recursive_types(T)]
pub struct ExCrossbeamSendError<T>(crossbeam::channel::SendError<T>);

/// Calls `crossbeam::channel::Sender::send`.  It fails only when every
/// receiver is gone, which depends on other threads, so nothing is
/// claimed of the outcome.
#[verifier::external_body]
pub(crate) fn send_message<T>(tx: &Sender<T>, msg: T) -> Result<(), SendError<T>> {
    tx.send(msg)
}

/// Calls `crossbeam::channel::Receiver::len`: the number of messages
/// waiting in the channel.  Other threads may add to it at any time, so
/// nothing is claimed of it.
#[verifier::external_body]
pub(crate) fn pending_count<T>(rx: &Receiver<T>) -> usize {
    rx.len()
}

/// Take the messages waiting in a channel, oldest first: as many as were
/// waiting when the call began, fewer if another receiver took some.
pub(crate) fn drain_pending<T>(rx: &Receiver<T>) -> Vec<T> {
    let n = pending_count(rx);
    let mut out: Vec<T> = Vec::new();
    let mut i: usize = 0;
    while i < n
        invariant
            0 <= i <= n,
        decreases n - i,
    {
        match try_receive(rx) {
            Some(m) => out.push(m),
            None => {
                return out;
            },
        }
        i = i + 1;
    }
    out
}

} // verus!
