//! The two listener loops as state machines.
//!
//! A driver owns the sockets and the tasks. It performs the action a machine
//! names, waits for it to complete, and reports the completion to `step`,
//! which answers with the next action.

use crate::events::Event;
use tokio::sync::mpsc::{Receiver, Sender};
use vstd::prelude::*;

pub mod tcp_server;
pub mod udp_server;

verus! {

/// Number of bytes a single read or receive can deliver.
pub const READ_BUFFER_SIZE: usize = 1024;

/// Number of events the queue to the sink holds before producers wait.
pub const EVENT_QUEUE_CAPACITY: usize = 32;

/// `tokio::sync::mpsc::Sender`, the producers' end of a bounded channel,
/// carried as an opaque value.
#[verifier::external_type_specification]
#[verifier::external_body]
#[verifier::reject_recursive_types(T)]
pub struct ExSender<T>(Sender<T>);

/// `tokio::sync::mpsc::Receiver`, the consumer's end of a bounded channel,
/// carried as an opaque value.
#[verifier::external_type_specification]
#[verifier::external_body]
#[verifier::reject_recursive_types(T)]
pub struct ExReceiver<T>(Receiver<T>);

/// The number of messages that the channel behind `sender` was made to hold.
pub uninterp spec fn channel_bound(sender: Sender<Event>) -> nat;

/// `tokio::sync::mpsc::channel`: a channel that buffers up to `buffer`
/// messages. It panics on a bound of 0 and on one above an eighth of the
/// address space, which `requires` leaves out.
#[verifier::external_body]
fn bounded_channel(buffer: usize) -> (ends: (Sender<Event>, Receiver<Event>))
    requires
        0 < buffer <= usize::MAX / 8,
    ensures
        channel_bound(ends.0) == buffer,
{
    tokio::sync::mpsc::channel(buffer)
}

/// Makes the queue between the listener loops and the sink: producers clone
/// the sending end, the sink owns the receiving end.
pub fn event_queue() -> (ends: (Sender<Event>, Receiver<Event>))
    ensures
        channel_bound(ends.0) == EVENT_QUEUE_CAPACITY,
{
    bounded_channel(EVENT_QUEUE_CAPACITY)
}

} // verus!
