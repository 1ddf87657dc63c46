//! The parts that reading an answer has in common with every provider.

use vstd::prelude::*;

use crate::types::{AssistantMessageEvent, EventView, StreamError, StreamErrorView};

verus! {

/// What arrives while an answer is read.
#[derive(Debug, PartialEq)]
pub enum Incoming<E> {
    /// The reader gave up.
    Cancelled,
    /// The transport failed, for the given reason.
    Broken(String),
    /// A record, with the event that it holds, where it holds one.
    Record(Option<E>),
}

/// What to do next with an answer.
#[derive(Debug, PartialEq)]
pub enum Next {
    /// Read on.
    Read,
    /// The answer has arrived whole.
    Finish,
    /// The stream is over.
    Close,
    /// The stream is over, with an error.
    Fail(StreamError),
}

/// What is told to the reader of a stream, and what to do next.
#[derive(Debug, PartialEq)]
pub struct Step {
    pub events: Vec<AssistantMessageEvent>,
    pub next: Next,
}

/// The model of [`Incoming`].
pub enum IncomingView<E> {
    Cancelled,
    Broken(Seq<char>),
    Record(Option<E>),
}

/// The model of [`Next`].
pub enum NextView {
    Read,
    Finish,
    Close,
    Fail(StreamErrorView),
}

/// The model of [`Step`].
pub struct StepView {
    pub events: Seq<EventView>,
    pub next: NextView,
}

impl<E: DeepView> DeepView for Incoming<E> {
    type V = IncomingView<E::V>;

    open spec fn deep_view(&self) -> IncomingView<E::V> {
        match *self {
            Incoming::Cancelled => IncomingView::Cancelled,
            Incoming::Broken(reason) => IncomingView::Broken(reason@),
            Incoming::Record(event) => IncomingView::Record(event.deep_view()),
        }
    }
}

impl DeepView for Next {
    type V = NextView;

    open spec fn deep_view(&self) -> NextView {
        match *self {
            Next::Read => NextView::Read,
            Next::Finish => NextView::Finish,
            Next::Close => NextView::Close,
            Next::Fail(error) => NextView::Fail(error.deep_view()),
        }
    }
}

impl DeepView for Step {
    type V = StepView;

    open spec fn deep_view(&self) -> StepView {
        StepView { events: self.events.deep_view(), next: self.next.deep_view() }
    }
}

/// Tells apart what arrives: that the reader gave up counts first, then that the
/// transport failed.
pub fn arrived<E: DeepView>(cancelled: bool, item: Result<Option<E>, String>) -> (incoming: Incoming<
    E,
>)
    ensures
        incoming.deep_view() == (if cancelled {
            IncomingView::Cancelled
        } else {
            match item {
                Ok(event) => IncomingView::Record(event.deep_view()),
                Err(reason) => IncomingView::Broken(reason@),
            }
        }),
{
    if cancelled {
        Incoming::Cancelled
    } else {
        match item {
            Ok(event) => Incoming::Record(event),
            Err(reason) => Incoming::Broken(reason),
        }
    }
}

/// Whether some events neither begin nor end the telling of an answer.
pub open spec fn midway(events: Seq<EventView>) -> bool {
    forall|i: int|
        0 <= i < events.len() ==> !(#[trigger] events[i] is Start) && !(events[i] is Done) && !(
        events[i] is Error)
}

/// Nothing to tell, read on.
pub open spec fn silent() -> StepView {
    StepView { events: Seq::empty(), next: NextView::Read }
}

/// Some events to tell, read on.
pub open spec fn telling(events: Seq<EventView>) -> StepView {
    StepView { events, next: NextView::Read }
}

/// Nothing to tell, the stream is over with an error.
pub open spec fn failing(error: StreamErrorView) -> StepView {
    StepView { events: Seq::empty(), next: NextView::Fail(error) }
}

/// The error of a broken transport.
pub open spec fn broken(reason: Seq<char>) -> StreamErrorView {
    StreamErrorView::InvalidResponse("sse: "@ + reason)
}

/// Tells nothing.
pub fn say_nothing(next: Next) -> (step: Step)
    ensures
        step.deep_view() == (StepView { events: Seq::empty(), next: next.deep_view() }),
{
    let step = Step { events: Vec::new(), next };
    assert(step.events.deep_view() =~= Seq::<EventView>::empty());
    step
}

/// Tells one event.
pub fn say(event: AssistantMessageEvent, next: Next) -> (step: Step)
    ensures
        step.deep_view() == (StepView {
            events: seq![event.deep_view()],
            next: next.deep_view(),
        }),
{
    let mut events: Vec<AssistantMessageEvent> = Vec::new();
    events.push(event);
    assert(events.deep_view() =~= seq![event.deep_view()]);
    Step { events, next }
}

/// Adds an event to those that are told.
pub fn tell(events: &mut Vec<AssistantMessageEvent>, event: AssistantMessageEvent)
    ensures
        final(events).deep_view() == old(events).deep_view().push(event.deep_view()),
{
    events.push(event);
    assert(events.deep_view() =~= old(events).deep_view().push(event.deep_view()));
}

/// The error of a broken transport.
pub fn broken_error(reason: &str) -> (error: StreamError)
    ensures
        error.deep_view() == broken(reason@),
{
    StreamError::InvalidResponse("sse: ".to_owned().concat(reason))
}

/// The text or thinking that an event adds at a place in the answer.
pub open spec fn text_delta_at(event: EventView, index: usize) -> Seq<char> {
    match event {
        EventView::TextDelta { content_index, delta } => if content_index == index {
            delta
        } else {
            Seq::empty()
        },
        EventView::ThinkingDelta { content_index, delta } => if content_index == index {
            delta
        } else {
            Seq::empty()
        },
        _ => Seq::empty(),
    }
}

/// The text of the arguments that an event adds at a place in the answer.
pub open spec fn call_delta_at(event: EventView, index: usize) -> Seq<char> {
    match event {
        EventView::ToolCallDelta { content_index, delta } => if content_index == index {
            delta
        } else {
            Seq::empty()
        },
        _ => Seq::empty(),
    }
}

/// All the text and thinking that was told for a place in the answer.
pub open spec fn told_text(events: Seq<EventView>, index: usize) -> Seq<char>
    decreases events.len(),
{
    if events.len() == 0 {
        Seq::empty()
    } else {
        told_text(events.drop_last(), index) + text_delta_at(events.last(), index)
    }
}

/// All the text of arguments that was told for a place in the answer.
pub open spec fn told_call(events: Seq<EventView>, index: usize) -> Seq<char>
    decreases events.len(),
{
    if events.len() == 0 {
        Seq::empty()
    } else {
        told_call(events.drop_last(), index) + call_delta_at(events.last(), index)
    }
}

/// What was told is told piece by piece.
pub proof fn lemma_told_add(a: Seq<EventView>, b: Seq<EventView>, index: usize)
    ensures
        told_text(a + b, index) == told_text(a, index) + told_text(b, index),
        told_call(a + b, index) == told_call(a, index) + told_call(b, index),
    decreases b.len(),
{
    if b.len() == 0 {
        assert(a + b =~= a);
        assert(told_text(a, index) + Seq::<char>::empty() =~= told_text(a, index));
        assert(told_call(a, index) + Seq::<char>::empty() =~= told_call(a, index));
    } else {
        lemma_told_add(a, b.drop_last(), index);
        assert((a + b).drop_last() =~= a + b.drop_last());
        assert((a + b).last() == b.last());
        assert(told_text(a + b, index) =~= told_text(a, index) + told_text(b, index));
        assert(told_call(a + b, index) =~= told_call(a, index) + told_call(b, index));
    }
}

/// One event told.
pub proof fn lemma_told_one(event: EventView, index: usize)
    ensures
        told_text(seq![event], index) == text_delta_at(event, index),
        told_call(seq![event], index) == call_delta_at(event, index),
{
    assert(seq![event].drop_last() =~= Seq::<EventView>::empty());
    assert(seq![event].last() == event);
    assert(told_text(Seq::empty(), index) + text_delta_at(event, index) =~= text_delta_at(
        event,
        index,
    ));
    assert(told_call(Seq::empty(), index) + call_delta_at(event, index) =~= call_delta_at(
        event,
        index,
    ));
}

} // verus!
