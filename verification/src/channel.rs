//! The two channels that join the tasks of the server: the bounded queue
//! that carries input events to the authoritative loop, and the stream that
//! carries encoded snapshots from it to every subscriber.
//!
//! Both are tokio's. Other tasks use them at the same time, so nothing here
//! says what a channel holds: each function states only what is true of
//! every answer the channel can give.

use crate::codec::InputEvent;
use crate::config::Config;
use tokio::sync::broadcast;
use tokio::sync::mpsc;
use tokio::sync::mpsc::error::{TryRecvError, TrySendError};
use vstd::prelude::*;

verus! {

/// The receiving half of tokio's bounded queue. Opaque to the verifier.
#[verifier::external_type_specification]
#[verifier::external_body]
#[verifier::reject_recursive_types(T)]
pub struct ExQueueReceiver<T>(mpsc::Receiver<T>);

/// A sending half of tokio's bounded queue. Opaque to the verifier.
#[verifier::external_type_specification]
#[verifier::external_body]
#[verifier::reject_recursive_types(T)]
pub struct ExQueueSender<T>(mpsc::Sender<T>);

/// The sending half of tokio's broadcast channel. Opaque to the verifier.
#[verifier::external_type_specification]
#[verifier::external_body]
#[verifier::reject_recursive_types(T)]
pub struct ExStreamSender<T>(broadcast::Sender<T>);

/// What the ingress queue answered when asked for its next event.
#[derive(Clone, Copy, Debug, PartialEq, Eq, Structural)]
pub enum Polled {
    /// The oldest queued event, now removed from the queue.
    Event(InputEvent),
    /// Nothing is queued at the moment.
    Empty,
    /// Nothing is queued and every sender is gone.
    Disconnected,
}

/// What the ingress queue answered when offered an event.
#[derive(Clone, Copy, Debug, PartialEq, Eq, Structural)]
pub enum Enqueued {
    /// The event is in the queue.
    Queued,
    /// The queue is full; the event was not taken.
    Full,
    /// The receiver is gone; the event was not taken.
    Closed,
}

/// Calls `tokio::sync::mpsc::channel`, which makes a bounded queue of the
/// given capacity. It panics on a capacity of zero or above a limit far
/// beyond `MAX_CAPACITY`; nothing is claimed of the two halves.
#[verifier::external_body]
pub(crate) fn new_queue(capacity: usize) -> (halves: (
    mpsc::Sender<InputEvent>,
    mpsc::Receiver<InputEvent>,
))
    requires
        0 < capacity <= crate::config::MAX_CAPACITY,
{
    mpsc::channel(capacity)
}

/// Calls `tokio::sync::broadcast::Sender::new`, which makes a stream that
/// keeps the given number of values for slow subscribers and starts without
/// subscribers. It panics on a capacity of zero or above half of
/// `usize::MAX`; nothing is claimed of the sender.
#[verifier::external_body]
pub(crate) fn new_stream(capacity: usize) -> (stream: broadcast::Sender<Vec<u8>>)
    requires
        0 < capacity <= crate::config::MAX_CAPACITY,
{
    broadcast::Sender::new(capacity)
}

/// Calls `tokio::sync::mpsc::Receiver::try_recv`, which takes the oldest
/// queued event if there is one and does not wait for one to arrive. What
/// comes back depends on the other tasks, so nothing is claimed of it.
#[verifier::external_body]
pub(crate) fn poll_event(queue: &mut mpsc::Receiver<InputEvent>) -> (polled: Polled) {
    match queue.try_recv() {
        Ok(event) => Polled::Event(event),
        Err(TryRecvError::Empty) => Polled::Empty,
        Err(TryRecvError::Disconnected) => Polled::Disconnected,
    }
}

/// Calls `tokio::sync::mpsc::Sender::try_send`, which queues the event if
/// there is room and does not wait for room. What comes back depends on
/// the other tasks, so nothing is claimed of it.
#[verifier::external_body]
pub(crate) fn offer_event(queue: &mpsc::Sender<InputEvent>, event: InputEvent) -> (answer:
    Enqueued) {
    match queue.try_send(event) {
        Ok(()) => Enqueued::Queued,
        Err(TrySendError::Full(_)) => Enqueued::Full,
        Err(TrySendError::Closed(_)) => Enqueued::Closed,
    }
}

/// Calls `tokio::sync::broadcast::Sender::send`, which does not wait for
/// any subscriber. It fails when nobody is subscribed and otherwise returns
/// the number of subscribers, which is then at least one: that much is
/// claimed, and no more.
#[verifier::external_body]
pub(crate) fn send_snapshot(stream: &broadcast::Sender<Vec<u8>>, bytes: Vec<u8>) -> (subscribers:
    Option<usize>)
    ensures
        subscribers matches Some(n) ==> n > 0,
{
    match stream.send(bytes) {
        Ok(n) => Some(n),
        Err(_) => None,
    }
}

/// The channels of one server: every ingress task gets a clone of
/// `ingress`, the authoritative loop alone holds `queue` and publishes on
/// `stream`, and every egress task subscribes to `stream`.
pub struct Wiring {
    pub ingress: mpsc::Sender<InputEvent>,
    pub queue: mpsc::Receiver<InputEvent>,
    pub stream: broadcast::Sender<Vec<u8>>,
}

/// Makes the ingress queue and the snapshot stream with the capacities of
/// `config`, or nothing where the settings are not valid.
pub fn wire(config: &Config) -> (wiring: Option<Wiring>)
    ensures
        wiring is Some <==> config.valid(),
{
    if !config.is_valid() {
        return None;
    }
    let (ingress, queue) = new_queue(config.ingress_capacity);
    let stream = new_stream(config.broadcast_capacity);
    Some(Wiring { ingress, queue, stream })
}

} // verus!
