//! The read side of one connection.
//!
//! The task that owns a connection's read half hands every arrival to
//! `Ingress::step` and does what the step says. A full queue turns the event
//! away: the event is dropped and the connection goes on, so that a slow
//! loop costs input and never blocks a reader.

use crate::channel::{offer_event, Enqueued};
use crate::codec::{decode_input, spec_decode_input, ClientMessage, DecodeError, InputEvent};
use tokio::sync::mpsc;
use vstd::prelude::*;

verus! {

/// What a read on the connection brought.
#[derive(Clone, Debug, PartialEq, Eq)]
pub enum Arrival {
    /// A message with this body.
    Message(Vec<u8>),
    /// The peer closed the connection.
    PeerClosed,
    /// The transport failed beyond recovery.
    TransportFailed,
}

/// What the ingress task is to do after an arrival.
#[derive(Clone, Copy, Debug, PartialEq, Eq, Structural)]
pub enum IngressStep {
    /// The event is queued for the loop. Read on.
    Forwarded(InputEvent),
    /// The queue was full and the event is dropped. Record a warning and
    /// read on.
    DroppedFull(InputEvent),
    /// The message could not be decoded and is dropped. Log it and read on.
    Rejected(DecodeError),
    /// The client sent the disconnect signal. Close the connection in good
    /// order and end.
    CloseRequested,
    /// The peer is gone. End.
    PeerGone,
    /// The transport failed. End.
    TransportLost,
    /// The loop no longer takes events. End.
    QueueGone,
}

/// Whether the ingress task reads on after `step`. It does after anything
/// that concerns one message only.
pub open spec fn spec_reads_on(step: IngressStep) -> bool {
    step is Forwarded || step is DroppedFull || step is Rejected
}

/// The step that follows the queue's answer to the offer of `event`.
pub open spec fn spec_after_offer(event: InputEvent, answer: Enqueued) -> IngressStep {
    match answer {
        Enqueued::Queued => IngressStep::Forwarded(event),
        Enqueued::Full => IngressStep::DroppedFull(event),
        Enqueued::Closed => IngressStep::QueueGone,
    }
}

/// Whether `step` can follow the arrival of a message with body `payload`.
/// The disconnect signal and a decode error leave one step each; an input
/// event leaves the three steps among which the queue decides.
pub open spec fn step_fits_message(payload: Seq<u8>, step: IngressStep) -> bool {
    match spec_decode_input(payload) {
        Ok(ClientMessage::Disconnect) => step == IngressStep::CloseRequested,
        Ok(ClientMessage::Input(event)) => exists|answer: Enqueued|
            step == #[trigger] spec_after_offer(event, answer),
        Err(error) => step == IngressStep::Rejected(error),
    }
}

/// Whether the ingress task reads on after `step`.
pub fn reads_on(step: IngressStep) -> (result: bool)
    ensures
        result == spec_reads_on(step),
{
    match step {
        IngressStep::Forwarded(_) => true,
        IngressStep::DroppedFull(_) => true,
        IngressStep::Rejected(_) => true,
        _ => false,
    }
}

/// The step that follows the queue's answer to the offer of `event`.
pub fn after_offer(event: InputEvent, answer: Enqueued) -> (step: IngressStep)
    ensures
        step == spec_after_offer(event, answer),
{
    match answer {
        Enqueued::Queued => IngressStep::Forwarded(event),
        Enqueued::Full => IngressStep::DroppedFull(event),
        Enqueued::Closed => IngressStep::QueueGone,
    }
}

/// Handles one message: decodes it and, where it is an input event, offers
/// the event to the queue without waiting.
///
/// Nothing is offered for the disconnect signal or for a message that does
/// not decode. Whether an offered event is taken is for the queue to say.
pub fn handle_message(queue: &mpsc::Sender<InputEvent>, payload: &[u8]) -> (step: IngressStep)
    ensures
        step_fits_message(payload@, step),
{
    match decode_input(payload) {
        Ok(ClientMessage::Disconnect) => IngressStep::CloseRequested,
        Ok(ClientMessage::Input(event)) => {
            let answer: Enqueued = offer_event(queue, event);
            after_offer(event, answer)
        },
        Err(error) => IngressStep::Rejected(error),
    }
}

/// Handles one arrival on the connection: a message as `handle_message`
/// does, the end of the connection by ending the task.
pub fn handle_arrival(queue: &mpsc::Sender<InputEvent>, arrival: &Arrival) -> (step: IngressStep)
    ensures
        match *arrival {
            Arrival::Message(payload) => step_fits_message(payload@, step),
            Arrival::PeerClosed => step == IngressStep::PeerGone,
            Arrival::TransportFailed => step == IngressStep::TransportLost,
        },
{
    match arrival {
        Arrival::Message(payload) => handle_message(queue, payload.as_slice()),
        Arrival::PeerClosed => IngressStep::PeerGone,
        Arrival::TransportFailed => IngressStep::TransportLost,
    }
}

/// A message that does not decode never ends the connection, and never
/// reaches the queue: the step it leaves is `Rejected` with the decoder's
/// error, after which the task reads on.
pub proof fn lemma_bad_message_is_not_fatal(payload: Seq<u8>, step: IngressStep)
    requires
        spec_decode_input(payload) is Err,
        step_fits_message(payload, step),
    ensures
        step == IngressStep::Rejected(spec_decode_input(payload)->Err_0),
        spec_reads_on(step),
{
}

/// A full queue never ends the connection: the event is dropped and the
/// task reads on.
pub proof fn lemma_full_queue_drops_event(event: InputEvent)
    ensures
        spec_after_offer(event, Enqueued::Full) == IngressStep::DroppedFull(event),
        spec_reads_on(spec_after_offer(event, Enqueued::Full)),
{
}

} // verus!
