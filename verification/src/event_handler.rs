//! The sink: the single consumer of the event queue.
//!
//! Handling an event means writing one line about it. The line is computed
//! here; the driver prints it.

use crate::events::{Event, EventView};
use vstd::prelude::*;
use vstd::string::StringExecFns;

verus! {

/// The text that std's `Debug` formatting gives for a vector of these bytes.
pub uninterp spec fn debug_text(bytes: Seq<u8>) -> Seq<char>;

/// `format!("{:?}", ..)` on a byte vector. Nothing is claimed of the text but
/// that it depends on the bytes alone.
#[verifier::external_body]
fn debug_string(data: &Vec<u8>) -> (text: String)
    ensures
        text@ == debug_text(data@),
{
    format!("{:?}", data)
}

/// The words that the line about an event begins with.
pub open spec fn preamble(event: EventView) -> Seq<char> {
    match event {
        EventView::Ping(_) => "Received Ping with data: "@,
        EventView::Custom(_) => "Received Custom event: "@,
        EventView::Unknown(_) => "Received Unknown data: "@,
    }
}

/// How the line about an event shows what the event holds: text as it is,
/// bytes in their debug form.
pub open spec fn rendering(event: EventView) -> Seq<char> {
    match event {
        EventView::Ping(data) => debug_text(data),
        EventView::Custom(message) => message,
        EventView::Unknown(data) => debug_text(data),
    }
}

/// The line that handling an event writes.
pub open spec fn log_line(event: EventView) -> Seq<char> {
    preamble(event) + rendering(event)
}

/// The line about `event`, given `rendered` as the text for what it holds.
pub fn compose_line(event: &Event, rendered: &str) -> (line: String)
    ensures
        line@ == preamble(event@) + rendered@,
{
    let mut line = match event {
        Event::Ping(_) => String::from_str("Received Ping with data: "),
        Event::Custom(_) => String::from_str("Received Custom event: "),
        Event::Unknown(_) => String::from_str("Received Unknown data: "),
    };
    line.append(rendered);
    line
}

/// Handles one event: returns the line to be written about it.
pub fn handle_event(event: Event) -> (line: String)
    ensures
        line@ == log_line(event@),
{
    match &event {
        Event::Ping(data) => {
            let rendered = debug_string(data);
            compose_line(&event, rendered.as_str())
        },
        Event::Custom(message) => compose_line(&event, message.as_str()),
        Event::Unknown(data) => {
            let rendered = debug_string(data);
            compose_line(&event, rendered.as_str())
        },
    }
}

/// What the sink task is waiting for.
#[derive(Clone, Copy, Debug, PartialEq, Eq)]
pub enum Sink {
    /// A dequeue is outstanding.
    Waiting,
    /// The line about the event just dequeued is being written.
    Handling,
    /// The queue is closed; the task has ended.
    Stopped,
}

/// How the sink's last operation ended.
#[derive(Debug, PartialEq, Eq)]
pub enum SinkCompletion {
    /// The queue gave out `event`.
    Dequeued { event: Event },
    /// Every producer is gone and the queue is empty.
    QueueClosed,
    Written,
}

/// What the sink's driver is to do next.
#[derive(Debug, PartialEq, Eq)]
pub enum SinkAction {
    /// Take the next event from the queue, waiting while it is empty.
    Dequeue,
    /// Write `line` to the console.
    Write { line: String },
    /// End the task.
    Stop,
}

pub enum SinkCompletionView {
    Dequeued { event: EventView },
    QueueClosed,
    Written,
}

pub enum SinkActionView {
    Dequeue,
    Write { line: Seq<char> },
    Stop,
}

impl View for SinkCompletion {
    type V = SinkCompletionView;

    open spec fn view(&self) -> SinkCompletionView {
        match self {
            SinkCompletion::Dequeued { event } => SinkCompletionView::Dequeued { event: event@ },
            SinkCompletion::QueueClosed => SinkCompletionView::QueueClosed,
            SinkCompletion::Written => SinkCompletionView::Written,
        }
    }
}

impl View for SinkAction {
    type V = SinkActionView;

    open spec fn view(&self) -> SinkActionView {
        match self {
            SinkAction::Dequeue => SinkActionView::Dequeue,
            SinkAction::Write { line } => SinkActionView::Write { line: line@ },
            SinkAction::Stop => SinkActionView::Stop,
        }
    }
}

/// The transition of the sink: events are handled one at a time, each
/// wholly before the next is taken, until the queue closes.
pub open spec fn transition(state: Sink, completion: SinkCompletionView) -> Option<
    (Sink, SinkActionView),
> {
    match (state, completion) {
        (Sink::Waiting, SinkCompletionView::Dequeued { event }) => Some(
            (Sink::Handling, SinkActionView::Write { line: log_line(event) }),
        ),
        (Sink::Waiting, SinkCompletionView::QueueClosed) => Some(
            (Sink::Stopped, SinkActionView::Stop),
        ),
        (Sink::Handling, SinkCompletionView::Written) => Some(
            (Sink::Waiting, SinkActionView::Dequeue),
        ),
        _ => None,
    }
}

/// The state that follows `completion`; a refused completion leaves it as it was.
pub open spec fn advance(state: Sink, completion: SinkCompletionView) -> Sink {
    match transition(state, completion) {
        Some((next, _)) => next,
        None => state,
    }
}

/// The event that `completion` brings into the sink: one or none.
pub open spec fn taken(state: Sink, completion: SinkCompletionView) -> Seq<EventView> {
    match (transition(state, completion), completion) {
        (Some(_), SinkCompletionView::Dequeued { event }) => seq![event],
        _ => Seq::empty(),
    }
}

/// The line that the answer to `completion` has written: one or none.
pub open spec fn written(state: Sink, completion: SinkCompletionView) -> Seq<Seq<char>> {
    match transition(state, completion) {
        Some((_, SinkActionView::Write { line })) => seq![line],
        _ => Seq::empty(),
    }
}

/// The state after a whole history of completions, taken in order.
pub open spec fn run(state: Sink, history: Seq<SinkCompletionView>) -> Sink
    decreases history.len(),
{
    if history.len() == 0 {
        state
    } else {
        run(advance(state, history[0]), history.drop_first())
    }
}

/// All events taken from the queue over `history`, in order.
pub open spec fn dequeued(state: Sink, history: Seq<SinkCompletionView>) -> Seq<EventView>
    decreases history.len(),
{
    if history.len() == 0 {
        Seq::empty()
    } else {
        taken(state, history[0]) + dequeued(advance(state, history[0]), history.drop_first())
    }
}

/// All lines written over `history`, in order.
pub open spec fn lines(state: Sink, history: Seq<SinkCompletionView>) -> Seq<Seq<char>>
    decreases history.len(),
{
    if history.len() == 0 {
        Seq::empty()
    } else {
        written(state, history[0]) + lines(advance(state, history[0]), history.drop_first())
    }
}

/// Every event taken from the queue is handled, in the order in which the
/// queue gave them out: the lines written are the lines of the events dequeued.
pub proof fn lemma_events_are_handled_in_order(state: Sink, history: Seq<SinkCompletionView>)
    ensures
        lines(state, history) == dequeued(state, history).map_values(
            |event: EventView| log_line(event),
        ),
    decreases history.len(),
{
    if history.len() > 0 {
        lemma_events_are_handled_in_order(advance(state, history[0]), history.drop_first());
    }
}

/// No event is taken while another is being handled: until the write is
/// reported done, the sink stays where it is and takes nothing.
pub proof fn lemma_one_event_at_a_time(history: Seq<SinkCompletionView>)
    requires
        forall|i: int| 0 <= i < history.len() ==> !(#[trigger] history[i] is Written),
    ensures
        run(Sink::Handling, history) == Sink::Handling,
        dequeued(Sink::Handling, history).len() == 0,
    decreases history.len(),
{
    if history.len() > 0 {
        let rest = history.drop_first();
        assert(forall|i: int| 0 <= i < rest.len() ==> rest[i] == history[i + 1]);
        lemma_one_event_at_a_time(rest);
    }
}

/// The sink ends only when the queue closes: while no dequeue reports the
/// queue closed, the sink has not stopped.
pub proof fn lemma_sink_runs_until_queue_closes(state: Sink, history: Seq<SinkCompletionView>)
    requires
        state != Sink::Stopped,
        forall|i: int| 0 <= i < history.len() ==> !(#[trigger] history[i] is QueueClosed),
    ensures
        run(state, history) != Sink::Stopped,
    decreases history.len(),
{
    if history.len() > 0 {
        let rest = history.drop_first();
        assert(forall|i: int| 0 <= i < rest.len() ==> rest[i] == history[i + 1]);
        lemma_sink_runs_until_queue_closes(advance(state, history[0]), rest);
    }
}

impl Sink {
    /// The sink before anything has happened, and its first action.
    pub fn start() -> (start: (Sink, SinkAction))
        ensures
            start.0 == Sink::Waiting,
            start.1@ == SinkActionView::Dequeue,
    {
        (Sink::Waiting, SinkAction::Dequeue)
    }

    /// Takes in how the last action ended and names the next one. A completion
    /// that does not answer the outstanding action is refused and changes nothing.
    pub fn step(&mut self, completion: SinkCompletion) -> (action: Option<SinkAction>)
        ensures
            match action {
                Some(next) => transition(*old(self), completion@) == Some((*final(self), next@)),
                None => transition(*old(self), completion@) is None && *final(self) == *old(self),
            },
    {
        match (*self, completion) {
            (Sink::Waiting, SinkCompletion::Dequeued { event }) => {
                *self = Sink::Handling;
                Some(SinkAction::Write { line: handle_event(event) })
            },
            (Sink::Waiting, SinkCompletion::QueueClosed) => {
                *self = Sink::Stopped;
                Some(SinkAction::Stop)
            },
            (Sink::Handling, SinkCompletion::Written) => {
                *self = Sink::Waiting;
                Some(SinkAction::Dequeue)
            },
            _ => None,
        }
    }
}

} // verus!
