//! One accepted TCP connection: read, classify, enqueue, echo, repeat.

use crate::events::{classify, parse_event, Event, EventView};
use crate::servers::READ_BUFFER_SIZE;
use vstd::prelude::*;
use vstd::slice::slice_to_vec;

verus! {

/// Why a connection task ended.
#[derive(Clone, Copy, Debug, PartialEq, Eq)]
pub enum CloseReason {
    /// A read delivered no bytes: the peer closed its side.
    PeerClosed,
    /// A read failed.
    ReadFailed,
    /// An echo could not be written.
    WriteFailed,
}

/// What a connection task is waiting for.
#[derive(Debug, PartialEq, Eq)]
pub enum Connection {
    /// A read is outstanding.
    Reading,
    /// The event of `data` is on its way to the sink; `data` is still to be echoed.
    Enqueueing { data: Vec<u8> },
    /// The echo is being written.
    Echoing,
    /// The task has ended.
    Closed { reason: CloseReason },
}

/// How the driver's last operation ended.
#[derive(Debug, PartialEq, Eq)]
pub enum Completion<'a> {
    /// A read filled the front of the buffer with `bytes`; none at end of stream.
    Read { bytes: &'a [u8] },
    ReadFailed,
    /// The sink's queue took the event.
    Enqueued,
    /// The sink is gone and the event was dropped.
    QueueClosed,
    Written,
    WriteFailed,
}

/// What the driver is to do next.
#[derive(Debug, PartialEq, Eq)]
pub enum Action {
    /// Read once into a buffer of `READ_BUFFER_SIZE` bytes.
    Read,
    /// Put `event` on the queue, waiting while the queue is full.
    Enqueue { event: Event },
    /// Write all of `data` to the peer.
    Write { data: Vec<u8> },
    /// Drop the connection and end the task.
    Close { reason: CloseReason },
}

pub enum ConnectionView {
    Reading,
    Enqueueing { data: Seq<u8> },
    Echoing,
    Closed { reason: CloseReason },
}

pub enum CompletionView {
    Read { bytes: Seq<u8> },
    ReadFailed,
    Enqueued,
    QueueClosed,
    Written,
    WriteFailed,
}

pub enum ActionView {
    Read,
    Enqueue { event: EventView },
    Write { data: Seq<u8> },
    Close { reason: CloseReason },
}

impl View for Connection {
    type V = ConnectionView;

    open spec fn view(&self) -> ConnectionView {
        match self {
            Connection::Reading => ConnectionView::Reading,
            Connection::Enqueueing { data } => ConnectionView::Enqueueing { data: data@ },
            Connection::Echoing => ConnectionView::Echoing,
            Connection::Closed { reason } => ConnectionView::Closed { reason: *reason },
        }
    }
}

impl<'a> View for Completion<'a> {
    type V = CompletionView;

    open spec fn view(&self) -> CompletionView {
        match self {
            Completion::Read { bytes } => CompletionView::Read { bytes: bytes@ },
            Completion::ReadFailed => CompletionView::ReadFailed,
            Completion::Enqueued => CompletionView::Enqueued,
            Completion::QueueClosed => CompletionView::QueueClosed,
            Completion::Written => CompletionView::Written,
            Completion::WriteFailed => CompletionView::WriteFailed,
        }
    }
}

impl View for Action {
    type V = ActionView;

    open spec fn view(&self) -> ActionView {
        match self {
            Action::Read => ActionView::Read,
            Action::Enqueue { event } => ActionView::Enqueue { event: event@ },
            Action::Write { data } => ActionView::Write { data: data@ },
            Action::Close { reason } => ActionView::Close { reason: *reason },
        }
    }
}

/// The transition of a connection: the state and the action that follow when
/// `completion` answers what `state` waits for, and `None` when it does not.
pub open spec fn transition(state: ConnectionView, completion: CompletionView) -> Option<
    (ConnectionView, ActionView),
> {
    match (state, completion) {
        (ConnectionView::Reading, CompletionView::Read { bytes }) => {
            if bytes.len() > READ_BUFFER_SIZE {
                None
            } else if bytes.len() == 0 {
                Some(
                    (
                        ConnectionView::Closed { reason: CloseReason::PeerClosed },
                        ActionView::Close { reason: CloseReason::PeerClosed },
                    ),
                )
            } else {
                Some(
                    (
                        ConnectionView::Enqueueing { data: bytes },
                        ActionView::Enqueue { event: classify(bytes) },
                    ),
                )
            }
        },
        (ConnectionView::Reading, CompletionView::ReadFailed) => Some(
            (
                ConnectionView::Closed { reason: CloseReason::ReadFailed },
                ActionView::Close { reason: CloseReason::ReadFailed },
            ),
        ),
        (ConnectionView::Enqueueing { data }, CompletionView::Enqueued) => Some(
            (ConnectionView::Echoing, ActionView::Write { data }),
        ),
        (ConnectionView::Enqueueing { data }, CompletionView::QueueClosed) => Some(
            (ConnectionView::Echoing, ActionView::Write { data }),
        ),
        (ConnectionView::Echoing, CompletionView::Written) => Some(
            (ConnectionView::Reading, ActionView::Read),
        ),
        (ConnectionView::Echoing, CompletionView::WriteFailed) => Some(
            (
                ConnectionView::Closed { reason: CloseReason::WriteFailed },
                ActionView::Close { reason: CloseReason::WriteFailed },
            ),
        ),
        _ => None,
    }
}

/// The state that follows `completion`; a refused completion leaves it as it was.
pub open spec fn advance(state: ConnectionView, completion: CompletionView) -> ConnectionView {
    match transition(state, completion) {
        Some((next, _)) => next,
        None => state,
    }
}

/// The bytes that `completion` brings into the connection.
pub open spec fn taken(state: ConnectionView, completion: CompletionView) -> Seq<u8> {
    match transition(state, completion) {
        Some((ConnectionView::Enqueueing { data }, _)) => data,
        _ => Seq::empty(),
    }
}

/// The bytes that the answer to `completion` hands to the peer's socket.
pub open spec fn returned(state: ConnectionView, completion: CompletionView) -> Seq<u8> {
    match transition(state, completion) {
        Some((_, ActionView::Write { data })) => data,
        _ => Seq::empty(),
    }
}

/// The events that the answer to `completion` hands to the queue: one or none.
pub open spec fn offered(state: ConnectionView, completion: CompletionView) -> Seq<EventView> {
    match transition(state, completion) {
        Some((_, ActionView::Enqueue { event })) => seq![event],
        _ => Seq::empty(),
    }
}

/// The bytes read and not yet handed back.
pub open spec fn pending(state: ConnectionView) -> Seq<u8> {
    match state {
        ConnectionView::Enqueueing { data } => data,
        _ => Seq::empty(),
    }
}

/// The state after a whole history of completions, taken in order.
pub open spec fn run(state: ConnectionView, history: Seq<CompletionView>) -> ConnectionView
    decreases history.len(),
{
    if history.len() == 0 {
        state
    } else {
        run(advance(state, history[0]), history.drop_first())
    }
}

/// All bytes read from the peer over `history`, in order.
pub open spec fn received(state: ConnectionView, history: Seq<CompletionView>) -> Seq<u8>
    decreases history.len(),
{
    if history.len() == 0 {
        Seq::empty()
    } else {
        taken(state, history[0]) + received(advance(state, history[0]), history.drop_first())
    }
}

/// All bytes handed to the peer's socket over `history`, in order.
pub open spec fn echoed(state: ConnectionView, history: Seq<CompletionView>) -> Seq<u8>
    decreases history.len(),
{
    if history.len() == 0 {
        Seq::empty()
    } else {
        returned(state, history[0]) + echoed(advance(state, history[0]), history.drop_first())
    }
}

/// The payloads of the reads that brought bytes in over `history`, one per read.
pub open spec fn chunks(state: ConnectionView, history: Seq<CompletionView>) -> Seq<Seq<u8>>
    decreases history.len(),
{
    if history.len() == 0 {
        Seq::empty()
    } else {
        let rest = chunks(advance(state, history[0]), history.drop_first());
        if taken(state, history[0]).len() > 0 {
            seq![taken(state, history[0])] + rest
        } else {
            rest
        }
    }
}

/// All events handed to the queue over `history`, in order.
pub open spec fn enqueued(state: ConnectionView, history: Seq<CompletionView>) -> Seq<EventView>
    decreases history.len(),
{
    if history.len() == 0 {
        Seq::empty()
    } else {
        offered(state, history[0]) + enqueued(advance(state, history[0]), history.drop_first())
    }
}

/// Every byte read is handed back exactly once and in order: whatever the
/// history, the bytes read so far are the bytes echoed so far followed by the
/// one payload, if any, that still waits for the queue.
pub proof fn lemma_echo_follows_input(state: ConnectionView, history: Seq<CompletionView>)
    ensures
        pending(state) + received(state, history) == echoed(state, history) + pending(
            run(state, history),
        ),
    decreases history.len(),
{
    if history.len() > 0 {
        lemma_echo_follows_input(advance(state, history[0]), history.drop_first());
    }
}

/// A client of a fresh connection gets back exactly what it sent: once
/// nothing waits for the queue any more, the bytes echoed are the bytes read.
pub proof fn lemma_round_trip(history: Seq<CompletionView>)
    requires
        pending(run(ConnectionView::Reading, history)).len() == 0,
    ensures
        echoed(ConnectionView::Reading, history) == received(ConnectionView::Reading, history),
{
    lemma_echo_follows_input(ConnectionView::Reading, history);
}

/// No payload is skipped on the way to the sink, and none overtakes another:
/// the events enqueued are the classifications of the payloads read, in order.
pub proof fn lemma_every_payload_is_enqueued(state: ConnectionView, history: Seq<CompletionView>)
    ensures
        enqueued(state, history) == chunks(state, history).map_values(
            |payload: Seq<u8>| classify(payload),
        ),
    decreases history.len(),
{
    if history.len() > 0 {
        lemma_every_payload_is_enqueued(advance(state, history[0]), history.drop_first());
    }
}

/// A full queue holds the connection back and loses nothing: until the
/// enqueue is reported done, the payload stays pending, nothing is echoed
/// and nothing more is read.
pub proof fn lemma_connection_waits_for_the_queue(data: Seq<u8>, history: Seq<CompletionView>)
    requires
        forall|i: int|
            0 <= i < history.len() ==> !(#[trigger] history[i] is Enqueued) && !(history[i]
                is QueueClosed),
    ensures
        run(ConnectionView::Enqueueing { data }, history) == (ConnectionView::Enqueueing { data }),
        echoed(ConnectionView::Enqueueing { data }, history).len() == 0,
        received(ConnectionView::Enqueueing { data }, history).len() == 0,
    decreases history.len(),
{
    if history.len() > 0 {
        let rest = history.drop_first();
        assert(forall|i: int| 0 <= i < rest.len() ==> rest[i] == history[i + 1]);
        lemma_connection_waits_for_the_queue(data, rest);
    }
}

/// A closed connection stays closed and asks for nothing more.
pub proof fn lemma_closed_is_final(
    reason: CloseReason,
    history: Seq<CompletionView>,
)
    ensures
        run(ConnectionView::Closed { reason }, history) == (ConnectionView::Closed { reason }),
        echoed(ConnectionView::Closed { reason }, history).len() == 0,
        enqueued(ConnectionView::Closed { reason }, history).len() == 0,
    decreases history.len(),
{
    if history.len() > 0 {
        lemma_closed_is_final(reason, history.drop_first());
    }
}

/// No read brings in more than one buffer: every payload that is classified
/// and echoed has between 1 and `READ_BUFFER_SIZE` bytes.
pub proof fn lemma_payloads_fit_the_buffer(
    state: ConnectionView,
    history: Seq<CompletionView>,
    i: int,
)
    requires
        0 <= i < chunks(state, history).len(),
    ensures
        0 < chunks(state, history)[i].len() <= READ_BUFFER_SIZE,
    decreases history.len(),
{
    let rest = chunks(advance(state, history[0]), history.drop_first());
    if taken(state, history[0]).len() > 0 {
        if i > 0 {
            lemma_payloads_fit_the_buffer(advance(state, history[0]), history.drop_first(), i - 1);
            assert(chunks(state, history)[i] == rest[i - 1]);
        }
    } else {
        lemma_payloads_fit_the_buffer(advance(state, history[0]), history.drop_first(), i);
    }
}

/// A completion together with the connection task it belongs to.
pub struct Routed {
    pub task: int,
    pub completion: CompletionView,
}

/// The states of the tasks after one routed completion: only the task it
/// belongs to moves.
pub open spec fn advance_all(states: Map<int, ConnectionView>, routed: Routed) -> Map<
    int,
    ConnectionView,
> {
    if states.dom().contains(routed.task) {
        states.insert(routed.task, advance(states[routed.task], routed.completion))
    } else {
        states
    }
}

/// The states of all tasks after a shared history, in which the completions
/// of different connections arrive interleaved in any order.
pub open spec fn run_all(states: Map<int, ConnectionView>, history: Seq<Routed>) -> Map<
    int,
    ConnectionView,
>
    decreases history.len(),
{
    if history.len() == 0 {
        states
    } else {
        run_all(advance_all(states, history[0]), history.drop_first())
    }
}

/// The bytes handed to the socket of `task` over a shared history.
pub open spec fn echoed_to(states: Map<int, ConnectionView>, history: Seq<Routed>, task: int) -> Seq<
    u8,
>
    decreases history.len(),
{
    if history.len() == 0 {
        Seq::empty()
    } else {
        let rest = echoed_to(advance_all(states, history[0]), history.drop_first(), task);
        if history[0].task == task && states.dom().contains(task) {
            returned(states[task], history[0].completion) + rest
        } else {
            rest
        }
    }
}

/// The completions of a shared history that belong to `task`, in order.
pub open spec fn own_history(history: Seq<Routed>, task: int) -> Seq<CompletionView>
    decreases history.len(),
{
    if history.len() == 0 {
        Seq::empty()
    } else if history[0].task == task {
        seq![history[0].completion] + own_history(history.drop_first(), task)
    } else {
        own_history(history.drop_first(), task)
    }
}

/// Connections do not touch each other: however the completions of many
/// connections interleave, a task ends in the state, and its peer is sent the
/// bytes, that its own completions alone lead to.
pub proof fn lemma_connections_are_independent(
    states: Map<int, ConnectionView>,
    history: Seq<Routed>,
    task: int,
)
    requires
        states.dom().contains(task),
    ensures
        run_all(states, history).dom().contains(task),
        run_all(states, history)[task] == run(states[task], own_history(history, task)),
        echoed_to(states, history, task) == echoed(states[task], own_history(history, task)),
    decreases history.len(),
{
    if history.len() > 0 {
        let own = own_history(history, task);
        lemma_connections_are_independent(
            advance_all(states, history[0]),
            history.drop_first(),
            task,
        );
        if history[0].task == task {
            assert(own[0] == history[0].completion);
            assert(own.drop_first() == own_history(history.drop_first(), task));
        }
    }
}

/// With many connections open, each peer still gets back its own bytes and
/// nothing else: what is sent to it is what was read from it, up to the one
/// payload that may still wait for the queue.
pub proof fn lemma_each_peer_gets_its_own_echo(history: Seq<Routed>, task: int)
    ensures
        ({
            let fresh = Map::new(|id: int| true, |id: int| ConnectionView::Reading);
            let own = own_history(history, task);
            echoed_to(fresh, history, task) + pending(run_all(fresh, history)[task]) == received(
                ConnectionView::Reading,
                own,
            )
        }),
{
    let fresh = Map::new(|id: int| true, |id: int| ConnectionView::Reading);
    lemma_connections_are_independent(fresh, history, task);
    lemma_echo_follows_input(ConnectionView::Reading, own_history(history, task));
}

impl Connection {
    /// A freshly accepted connection, and its first action.
    pub fn open() -> (start: (Connection, Action))
        ensures
            start.0@ == ConnectionView::Reading,
            start.1@ == ActionView::Read,
    {
        (Connection::Reading, Action::Read)
    }

    /// Takes in how the last action ended and names the next one. A completion
    /// that does not answer the outstanding action is refused and changes nothing.
    pub fn step(&mut self, completion: Completion<'_>) -> (action: Option<Action>)
        ensures
            match action {
                Some(next) => transition(old(self)@, completion@) == Some((final(self)@, next@)),
                None => transition(old(self)@, completion@) is None && final(self)@ == old(self)@,
            },
    {
        match self {
            Connection::Reading => match completion {
                Completion::Read { bytes } => {
                    if bytes.len() > READ_BUFFER_SIZE {
                        None
                    } else if bytes.len() == 0 {
                        *self = Connection::Closed { reason: CloseReason::PeerClosed };
                        Some(Action::Close { reason: CloseReason::PeerClosed })
                    } else {
                        let data = slice_to_vec(bytes);
                        let event = parse_event(data.clone());
                        *self = Connection::Enqueueing { data };
                        Some(Action::Enqueue { event })
                    }
                },
                Completion::ReadFailed => {
                    *self = Connection::Closed { reason: CloseReason::ReadFailed };
                    Some(Action::Close { reason: CloseReason::ReadFailed })
                },
                _ => None,
            },
            Connection::Enqueueing { data } => match completion {
                Completion::Enqueued | Completion::QueueClosed => {
                    let mut echo: Vec<u8> = Vec::new();
                    core::mem::swap(data, &mut echo);
                    *self = Connection::Echoing;
                    Some(Action::Write { data: echo })
                },
                _ => None,
            },
            Connection::Echoing => match completion {
                Completion::Written => {
                    *self = Connection::Reading;
                    Some(Action::Read)
                },
                Completion::WriteFailed => {
                    *self = Connection::Closed { reason: CloseReason::WriteFailed };
                    Some(Action::Close { reason: CloseReason::WriteFailed })
                },
                _ => None,
            },
            Connection::Closed { .. } => None,
        }
    }
}

/// What the accept loop is waiting for.
#[derive(Clone, Copy, Debug, PartialEq, Eq)]
pub enum Listener {
    /// The listening socket is being bound.
    Binding,
    /// The sink task is being started.
    StartingSink,
    /// An accept is outstanding.
    Accepting,
    /// The connection just accepted is being given its task.
    Spawning,
    /// The address could not be bound; the loop has ended.
    Failed,
}

/// How the accept loop's last operation ended. `E` is the driver's error type.
#[derive(Debug, PartialEq, Eq)]
pub enum ListenerCompletion<E> {
    Bound,
    BindFailed { error: E },
    SinkStarted,
    Accepted,
    AcceptFailed,
    Spawned,
}

/// What the accept loop's driver is to do next.
#[derive(Debug, PartialEq, Eq)]
pub enum ListenerAction<E> {
    /// Bind the listening socket to the address.
    Bind,
    /// Make the queue of `EVENT_QUEUE_CAPACITY` events and start the sink on it.
    StartSink,
    /// Accept one connection.
    Accept,
    /// Start a task that serves the accepted connection from `Connection::open`.
    Spawn,
    /// Return `error`: the loop cannot run.
    Fail { error: E },
}

/// The transition of the accept loop. Only a failed bind ends it; a failed
/// accept is followed by the next accept.
pub open spec fn listener_transition<E>(state: Listener, completion: ListenerCompletion<E>) -> Option<
    (Listener, ListenerAction<E>),
> {
    match (state, completion) {
        (Listener::Binding, ListenerCompletion::Bound) => Some(
            (Listener::StartingSink, ListenerAction::StartSink),
        ),
        (Listener::Binding, ListenerCompletion::BindFailed { error }) => Some(
            (Listener::Failed, ListenerAction::Fail { error }),
        ),
        (Listener::StartingSink, ListenerCompletion::SinkStarted) => Some(
            (Listener::Accepting, ListenerAction::Accept),
        ),
        (Listener::Accepting, ListenerCompletion::Accepted) => Some(
            (Listener::Spawning, ListenerAction::Spawn),
        ),
        (Listener::Accepting, ListenerCompletion::AcceptFailed) => Some(
            (Listener::Accepting, ListenerAction::Accept),
        ),
        (Listener::Spawning, ListenerCompletion::Spawned) => Some(
            (Listener::Accepting, ListenerAction::Accept),
        ),
        _ => None,
    }
}

/// The state of the accept loop after `completion`; a refused completion
/// leaves it as it was.
pub open spec fn listener_advance<E>(state: Listener, completion: ListenerCompletion<E>) -> Listener {
    match listener_transition(state, completion) {
        Some((next, _)) => next,
        None => state,
    }
}

/// The state of the accept loop after a whole history of completions.
pub open spec fn listener_run<E>(state: Listener, history: Seq<ListenerCompletion<E>>) -> Listener
    decreases history.len(),
{
    if history.len() == 0 {
        state
    } else {
        listener_run(listener_advance(state, history[0]), history.drop_first())
    }
}

/// A bind failure is never passed over: from `Failed` no completion leads
/// anywhere, so the loop never comes to accept.
pub proof fn lemma_bind_failure_is_final<E>(history: Seq<ListenerCompletion<E>>)
    ensures
        listener_run(Listener::Failed, history) == Listener::Failed,
    decreases history.len(),
{
    if history.len() > 0 {
        lemma_bind_failure_is_final(history.drop_first());
    }
}

/// Once the socket is bound the loop never ends: whatever follows, failed
/// accepts included, it is still serving.
pub proof fn lemma_bound_listener_keeps_serving<E>(
    state: Listener,
    history: Seq<ListenerCompletion<E>>,
)
    requires
        state != Listener::Binding,
        state != Listener::Failed,
    ensures
        listener_run(state, history) != Listener::Binding,
        listener_run(state, history) != Listener::Failed,
    decreases history.len(),
{
    if history.len() > 0 {
        lemma_bound_listener_keeps_serving(listener_advance(state, history[0]), history.drop_first());
    }
}

/// Starts the TCP loop: the accept loop before anything has happened, and
/// its first action.
pub fn start_tcp_server<E>() -> (start: (Listener, ListenerAction<E>))
    ensures
        start.0 == Listener::Binding,
        start.1 == ListenerAction::<E>::Bind,
{
    (Listener::Binding, ListenerAction::Bind)
}

impl Listener {
    /// Takes in how the last action ended and names the next one. A completion
    /// that does not answer the outstanding action is refused and changes nothing.
    pub fn step<E>(&mut self, completion: ListenerCompletion<E>) -> (action: Option<
        ListenerAction<E>,
    >)
        ensures
            match action {
                Some(next) => listener_transition(*old(self), completion) == Some(
                    (*final(self), next),
                ),
                None => listener_transition(*old(self), completion) is None && *final(self)
                    == *old(self),
            },
    {
        match (*self, completion) {
            (Listener::Binding, ListenerCompletion::Bound) => {
                *self = Listener::StartingSink;
                Some(ListenerAction::StartSink)
            },
            (Listener::Binding, ListenerCompletion::BindFailed { error }) => {
                *self = Listener::Failed;
                Some(ListenerAction::Fail { error })
            },
            (Listener::StartingSink, ListenerCompletion::SinkStarted) => {
                *self = Listener::Accepting;
                Some(ListenerAction::Accept)
            },
            (Listener::Accepting, ListenerCompletion::Accepted) => {
                *self = Listener::Spawning;
                Some(ListenerAction::Spawn)
            },
            (Listener::Accepting, ListenerCompletion::AcceptFailed) => Some(ListenerAction::Accept),
            (Listener::Spawning, ListenerCompletion::Spawned) => {
                *self = Listener::Accepting;
                Some(ListenerAction::Accept)
            },
            _ => None,
        }
    }
}

} // verus!
