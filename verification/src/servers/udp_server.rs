//! The UDP loop: one socket, one datagram at a time, each answered to its sender.

use crate::events::{classify, parse_event, Event, EventView};
use crate::servers::READ_BUFFER_SIZE;
use vstd::prelude::*;
use vstd::slice::{slice_subrange, slice_to_vec};

verus! {

/// What the datagram loop is waiting for. `A` is the driver's address type.
#[derive(Debug, PartialEq, Eq)]
pub enum DatagramLoop<A> {
    /// The socket is being bound.
    Binding,
    /// The sink task is being started.
    StartingSink,
    /// A receive is outstanding.
    Receiving,
    /// The event of `data` is on its way to the sink; `data` is still to be
    /// sent back to `peer`.
    Enqueueing { data: Vec<u8>, peer: A },
    /// The reply is being sent.
    Replying,
    /// The address could not be bound; the loop has ended.
    Failed,
}

/// How the driver's last operation ended. `E` is the driver's error type.
#[derive(Debug, PartialEq, Eq)]
pub enum Completion<'a, A, E> {
    Bound,
    BindFailed { error: E },
    SinkStarted,
    /// A datagram with the content `bytes` arrived from `from`.
    Received { bytes: &'a [u8], from: A },
    ReceiveFailed,
    /// The sink's queue took the event.
    Enqueued,
    /// The sink is gone and the event was dropped.
    QueueClosed,
    Sent,
    SendFailed,
}

/// What the driver is to do next.
#[derive(Debug, PartialEq, Eq)]
pub enum Action<A, E> {
    /// Bind the socket to the address.
    Bind,
    /// Make the queue of `EVENT_QUEUE_CAPACITY` events and start the sink on it.
    StartSink,
    /// Receive one datagram into a buffer of `READ_BUFFER_SIZE` bytes.
    Receive,
    /// Put `event` on the queue, waiting while the queue is full.
    Enqueue { event: Event },
    /// Send `data` as one datagram to `to`.
    SendTo { data: Vec<u8>, to: A },
    /// Return `error`: the loop cannot run.
    Fail { error: E },
}

pub enum DatagramLoopView<A> {
    Binding,
    StartingSink,
    Receiving,
    Enqueueing { data: Seq<u8>, peer: A },
    Replying,
    Failed,
}

pub enum CompletionView<A, E> {
    Bound,
    BindFailed { error: E },
    SinkStarted,
    Received { bytes: Seq<u8>, from: A },
    ReceiveFailed,
    Enqueued,
    QueueClosed,
    Sent,
    SendFailed,
}

pub enum ActionView<A, E> {
    Bind,
    StartSink,
    Receive,
    Enqueue { event: EventView },
    SendTo { data: Seq<u8>, to: A },
    Fail { error: E },
}

impl<A> View for DatagramLoop<A> {
    type V = DatagramLoopView<A>;

    open spec fn view(&self) -> DatagramLoopView<A> {
        match self {
            DatagramLoop::Binding => DatagramLoopView::Binding,
            DatagramLoop::StartingSink => DatagramLoopView::StartingSink,
            DatagramLoop::Receiving => DatagramLoopView::Receiving,
            DatagramLoop::Enqueueing { data, peer } => DatagramLoopView::Enqueueing {
                data: data@,
                peer: *peer,
            },
            DatagramLoop::Replying => DatagramLoopView::Replying,
            DatagramLoop::Failed => DatagramLoopView::Failed,
        }
    }
}

impl<'a, A, E> View for Completion<'a, A, E> {
    type V = CompletionView<A, E>;

    open spec fn view(&self) -> CompletionView<A, E> {
        match self {
            Completion::Bound => CompletionView::Bound,
            Completion::BindFailed { error } => CompletionView::BindFailed { error: *error },
            Completion::SinkStarted => CompletionView::SinkStarted,
            Completion::Received { bytes, from } => CompletionView::Received {
                bytes: bytes@,
                from: *from,
            },
            Completion::ReceiveFailed => CompletionView::ReceiveFailed,
            Completion::Enqueued => CompletionView::Enqueued,
            Completion::QueueClosed => CompletionView::QueueClosed,
            Completion::Sent => CompletionView::Sent,
            Completion::SendFailed => CompletionView::SendFailed,
        }
    }
}

impl<A, E> View for Action<A, E> {
    type V = ActionView<A, E>;

    open spec fn view(&self) -> ActionView<A, E> {
        match self {
            Action::Bind => ActionView::Bind,
            Action::StartSink => ActionView::StartSink,
            Action::Receive => ActionView::Receive,
            Action::Enqueue { event } => ActionView::Enqueue { event: event@ },
            Action::SendTo { data, to } => ActionView::SendTo { data: data@, to: *to },
            Action::Fail { error } => ActionView::Fail { error: *error },
        }
    }
}

/// The part of a datagram that the loop works on: all of it, or its first
/// `READ_BUFFER_SIZE` bytes where it is longer. The rest is dropped silently.
pub open spec fn cut_to_buffer(datagram: Seq<u8>) -> Seq<u8> {
    if datagram.len() > READ_BUFFER_SIZE {
        datagram.subrange(0, READ_BUFFER_SIZE as int)
    } else {
        datagram
    }
}

/// The transition of the datagram loop: the state and the action that follow
/// when `completion` answers what `state` waits for, and `None` when it does
/// not. Only a failed bind ends the loop.
pub open spec fn transition<A, E>(
    state: DatagramLoopView<A>,
    completion: CompletionView<A, E>,
) -> Option<(DatagramLoopView<A>, ActionView<A, E>)> {
    match (state, completion) {
        (DatagramLoopView::Binding, CompletionView::Bound) => Some(
            (DatagramLoopView::StartingSink, ActionView::StartSink),
        ),
        (DatagramLoopView::Binding, CompletionView::BindFailed { error }) => Some(
            (DatagramLoopView::Failed, ActionView::Fail { error }),
        ),
        (DatagramLoopView::StartingSink, CompletionView::SinkStarted) => Some(
            (DatagramLoopView::Receiving, ActionView::Receive),
        ),
        (DatagramLoopView::Receiving, CompletionView::Received { bytes, from }) => Some(
            (
                DatagramLoopView::Enqueueing { data: cut_to_buffer(bytes), peer: from },
                ActionView::Enqueue { event: classify(cut_to_buffer(bytes)) },
            ),
        ),
        (DatagramLoopView::Receiving, CompletionView::ReceiveFailed) => Some(
            (DatagramLoopView::Receiving, ActionView::Receive),
        ),
        (DatagramLoopView::Enqueueing { data, peer }, CompletionView::Enqueued) => Some(
            (DatagramLoopView::Replying, ActionView::SendTo { data, to: peer }),
        ),
        (DatagramLoopView::Enqueueing { data, peer }, CompletionView::QueueClosed) => Some(
            (DatagramLoopView::Replying, ActionView::SendTo { data, to: peer }),
        ),
        (DatagramLoopView::Replying, CompletionView::Sent) => Some(
            (DatagramLoopView::Receiving, ActionView::Receive),
        ),
        (DatagramLoopView::Replying, CompletionView::SendFailed) => Some(
            (DatagramLoopView::Receiving, ActionView::Receive),
        ),
        _ => None,
    }
}

/// A datagram as the loop holds it: its content and the address it came from.
pub struct Datagram<A> {
    pub peer: A,
    pub data: Seq<u8>,
}

/// The state that follows `completion`; a refused completion leaves it as it was.
pub open spec fn advance<A, E>(
    state: DatagramLoopView<A>,
    completion: CompletionView<A, E>,
) -> DatagramLoopView<A> {
    match transition(state, completion) {
        Some((next, _)) => next,
        None => state,
    }
}

/// The datagram that `completion` brings into the loop: one or none.
pub open spec fn taken<A, E>(
    state: DatagramLoopView<A>,
    completion: CompletionView<A, E>,
) -> Seq<Datagram<A>> {
    match transition(state, completion) {
        Some((DatagramLoopView::Enqueueing { data, peer }, _)) => seq![Datagram { peer, data }],
        _ => Seq::empty(),
    }
}

/// The datagram that the answer to `completion` sends out: one or none.
pub open spec fn returned<A, E>(
    state: DatagramLoopView<A>,
    completion: CompletionView<A, E>,
) -> Seq<Datagram<A>> {
    match transition(state, completion) {
        Some((_, ActionView::SendTo { data, to })) => seq![Datagram { peer: to, data }],
        _ => Seq::empty(),
    }
}

/// The event that the answer to `completion` hands to the queue: one or none.
pub open spec fn offered<A, E>(
    state: DatagramLoopView<A>,
    completion: CompletionView<A, E>,
) -> Seq<EventView> {
    match transition(state, completion) {
        Some((_, ActionView::Enqueue { event })) => seq![event],
        _ => Seq::empty(),
    }
}

/// The datagram received and not yet answered: one or none.
pub open spec fn pending<A>(state: DatagramLoopView<A>) -> Seq<Datagram<A>> {
    match state {
        DatagramLoopView::Enqueueing { data, peer } => seq![Datagram { peer, data }],
        _ => Seq::empty(),
    }
}

/// The state after a whole history of completions, taken in order.
pub open spec fn run<A, E>(
    state: DatagramLoopView<A>,
    history: Seq<CompletionView<A, E>>,
) -> DatagramLoopView<A>
    decreases history.len(),
{
    if history.len() == 0 {
        state
    } else {
        run(advance(state, history[0]), history.drop_first())
    }
}

/// All datagrams received over `history`, in order of arrival.
pub open spec fn received<A, E>(
    state: DatagramLoopView<A>,
    history: Seq<CompletionView<A, E>>,
) -> Seq<Datagram<A>>
    decreases history.len(),
{
    if history.len() == 0 {
        Seq::empty()
    } else {
        taken(state, history[0]) + received(advance(state, history[0]), history.drop_first())
    }
}

/// All datagrams sent out over `history`, in order.
pub open spec fn replied<A, E>(
    state: DatagramLoopView<A>,
    history: Seq<CompletionView<A, E>>,
) -> Seq<Datagram<A>>
    decreases history.len(),
{
    if history.len() == 0 {
        Seq::empty()
    } else {
        returned(state, history[0]) + replied(advance(state, history[0]), history.drop_first())
    }
}

/// All events handed to the queue over `history`, in order.
pub open spec fn enqueued<A, E>(
    state: DatagramLoopView<A>,
    history: Seq<CompletionView<A, E>>,
) -> Seq<EventView>
    decreases history.len(),
{
    if history.len() == 0 {
        Seq::empty()
    } else {
        offered(state, history[0]) + enqueued(advance(state, history[0]), history.drop_first())
    }
}

/// Every datagram is answered once, in order of arrival, with its own bytes
/// and to its own sender: whatever the history, the datagrams received are
/// the replies sent followed by the one datagram, if any, that still waits
/// for the queue.
pub proof fn lemma_reply_follows_datagram<A, E>(
    state: DatagramLoopView<A>,
    history: Seq<CompletionView<A, E>>,
)
    ensures
        pending(state) + received(state, history) == replied(state, history) + pending(
            run(state, history),
        ),
    decreases history.len(),
{
    if history.len() > 0 {
        lemma_reply_follows_datagram(advance(state, history[0]), history.drop_first());
    }
}

/// No datagram is skipped on the way to the sink, and none overtakes
/// another: the events enqueued are the classifications of the datagrams
/// received, in order.
pub proof fn lemma_every_datagram_is_enqueued<A, E>(
    state: DatagramLoopView<A>,
    history: Seq<CompletionView<A, E>>,
)
    ensures
        enqueued(state, history) == received(state, history).map_values(
            |datagram: Datagram<A>| classify(datagram.data),
        ),
    decreases history.len(),
{
    if history.len() > 0 {
        lemma_every_datagram_is_enqueued(advance(state, history[0]), history.drop_first());
    }
}

/// A full queue holds the loop back and loses nothing: until the enqueue is
/// reported done, the datagram stays pending, nothing is sent and nothing
/// more is received.
pub proof fn lemma_loop_waits_for_the_queue<A, E>(
    data: Seq<u8>,
    peer: A,
    history: Seq<CompletionView<A, E>>,
)
    requires
        forall|i: int|
            0 <= i < history.len() ==> !(#[trigger] history[i] is Enqueued) && !(history[i]
                is QueueClosed),
    ensures
        run(DatagramLoopView::Enqueueing { data, peer }, history) == (DatagramLoopView::Enqueueing {
            data,
            peer,
        }),
        replied(DatagramLoopView::Enqueueing { data, peer }, history).len() == 0,
        received(DatagramLoopView::Enqueueing { data, peer }, history).len() == 0,
    decreases history.len(),
{
    if history.len() > 0 {
        let rest = history.drop_first();
        assert(forall|i: int| 0 <= i < rest.len() ==> rest[i] == history[i + 1]);
        lemma_loop_waits_for_the_queue(data, peer, rest);
    }
}

/// No datagram is worked on beyond one buffer: what is classified and sent
/// back never has more than `READ_BUFFER_SIZE` bytes.
pub proof fn lemma_datagrams_fit_the_buffer<A, E>(
    state: DatagramLoopView<A>,
    history: Seq<CompletionView<A, E>>,
    i: int,
)
    requires
        0 <= i < received(state, history).len(),
    ensures
        received(state, history)[i].data.len() <= READ_BUFFER_SIZE,
    decreases history.len(),
{
    let first = taken(state, history[0]);
    let rest = received(advance(state, history[0]), history.drop_first());
    if i >= first.len() {
        lemma_datagrams_fit_the_buffer(
            advance(state, history[0]),
            history.drop_first(),
            i - first.len(),
        );
        assert(received(state, history)[i] == rest[i - first.len()]);
    }
}

/// A bind failure is never passed over: from `Failed` no completion leads
/// anywhere, so the loop never comes to receive.
pub proof fn lemma_bind_failure_is_final<A, E>(history: Seq<CompletionView<A, E>>)
    ensures
        run(DatagramLoopView::<A>::Failed, history) == DatagramLoopView::<A>::Failed,
        replied(DatagramLoopView::<A>::Failed, history).len() == 0,
        enqueued(DatagramLoopView::<A>::Failed, history).len() == 0,
    decreases history.len(),
{
    if history.len() > 0 {
        lemma_bind_failure_is_final::<A, E>(history.drop_first());
    }
}

/// Once the socket is bound the loop never ends: whatever follows, failed
/// receives and failed replies included, it is still running.
pub proof fn lemma_bound_loop_keeps_running<A, E>(
    state: DatagramLoopView<A>,
    history: Seq<CompletionView<A, E>>,
)
    requires
        !(state is Binding),
        !(state is Failed),
    ensures
        !(run(state, history) is Binding),
        !(run(state, history) is Failed),
    decreases history.len(),
{
    if history.len() > 0 {
        lemma_bound_loop_keeps_running(advance(state, history[0]), history.drop_first());
    }
}

/// Starts the UDP loop: the loop before anything has happened, and its
/// first action.
pub fn start_udp_server<A, E>() -> (start: (DatagramLoop<A>, Action<A, E>))
    ensures
        start.0@ == DatagramLoopView::<A>::Binding,
        start.1@ == ActionView::<A, E>::Bind,
{
    (DatagramLoop::Binding, Action::Bind)
}

impl<A> DatagramLoop<A> {
    /// Takes in how the last action ended and names the next one. A completion
    /// that does not answer the outstanding action is refused and changes nothing.
    pub fn step<E>(&mut self, completion: Completion<'_, A, E>) -> (action: Option<Action<A, E>>)
        ensures
            match action {
                Some(next) => transition(old(self)@, completion@) == Some((final(self)@, next@)),
                None => transition(old(self)@, completion@) is None && final(self)@ == old(self)@,
            },
    {
        let mut state = DatagramLoop::Failed;
        core::mem::swap(self, &mut state);
        match (state, completion) {
            (DatagramLoop::Binding, Completion::Bound) => {
                *self = DatagramLoop::StartingSink;
                Some(Action::StartSink)
            },
            (DatagramLoop::Binding, Completion::BindFailed { error }) => {
                *self = DatagramLoop::Failed;
                Some(Action::Fail { error })
            },
            (DatagramLoop::StartingSink, Completion::SinkStarted) => {
                *self = DatagramLoop::Receiving;
                Some(Action::Receive)
            },
            (DatagramLoop::Receiving, Completion::Received { bytes, from }) => {
                let kept = if bytes.len() > READ_BUFFER_SIZE {
                    slice_subrange(bytes, 0, READ_BUFFER_SIZE)
                } else {
                    bytes
                };
                let data = slice_to_vec(kept);
                let event = parse_event(data.clone());
                *self = DatagramLoop::Enqueueing { data, peer: from };
                Some(Action::Enqueue { event })
            },
            (DatagramLoop::Receiving, Completion::ReceiveFailed) => {
                *self = DatagramLoop::Receiving;
                Some(Action::Receive)
            },
            (
                DatagramLoop::Enqueueing { data, peer },
                Completion::Enqueued | Completion::QueueClosed,
            ) => {
                *self = DatagramLoop::Replying;
                Some(Action::SendTo { data, to: peer })
            },
            (DatagramLoop::Replying, Completion::Sent | Completion::SendFailed) => {
                *self = DatagramLoop::Receiving;
                Some(Action::Receive)
            },
            (state, _) => {
                *self = state;
                None
            },
        }
    }
}

} // verus!
