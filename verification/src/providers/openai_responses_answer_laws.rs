//! What a whole Responses answer comes to, in terms of the events that arrived.

use vstd::prelude::*;

use crate::json;
use crate::json::JsonView;
use crate::providers::openai_responses_events;
use crate::providers::openai_responses_events::{
    DeltaView, ItemView, RecordKind, ResponsesEventView, ResponsesView,
};
use crate::providers::stream::{IncomingView, NextView, StepView};
use crate::types::{ContentView, EventView, ModelView, StopReason, StreamErrorView};

verus! {

/// All the text that arrived.
pub open spec fn heard_text(events: Seq<ResponsesEventView>) -> Seq<char>
    decreases events.len(),
{
    if events.len() == 0 {
        Seq::empty()
    } else {
        heard_text(events.drop_last()) + match events.last() {
            ResponsesEventView::OutputTextDelta(DeltaView { delta: Some(text), .. }) => text,
            _ => Seq::empty(),
        }
    }
}

/// The calls that were added, in the order in which they arrived.
pub open spec fn added(events: Seq<ResponsesEventView>) -> Seq<ItemView>
    decreases events.len(),
{
    if events.len() == 0 {
        Seq::empty()
    } else {
        match events.last() {
            ResponsesEventView::OutputItemAdded { item: Some(item) } => if item.item_type
                == "function_call"@ {
                added(events.drop_last()).push(item)
            } else {
                added(events.drop_last())
            },
            _ => added(events.drop_last()),
        }
    }
}

/// The last call whose item has a given id.
pub open spec fn call_with_id(items: Seq<ItemView>, id: Seq<char>) -> Option<int>
    decreases items.len(),
{
    if items.len() == 0 {
        None
    } else if items.last().id == Some(id) {
        Some(items.len() - 1)
    } else {
        call_with_id(items.drop_last(), id)
    }
}

/// Which of some calls a piece of arguments is for: the one whose item it
/// names, or else the one whose place it names, or else the last one.
pub open spec fn meant(items: Seq<ItemView>, delta: DeltaView) -> int {
    let named = match delta.item_id {
        Some(id) => call_with_id(items, id),
        None => None,
    };
    if named is Some {
        named->0
    } else if delta.output_index is Some {
        delta.output_index->0 as int
    } else {
        items.len() - 1
    }
}

/// All the text of arguments that arrived for a call.
pub open spec fn heard_arguments(events: Seq<ResponsesEventView>, k: int) -> Seq<char>
    decreases events.len(),
{
    if events.len() == 0 {
        Seq::empty()
    } else {
        let front = events.drop_last();
        heard_arguments(front, k) + match events.last() {
            ResponsesEventView::FunctionCallArgumentsDelta(delta) => if delta.delta is Some
                && added(front).len() > k && meant(added(front), delta) == k {
                delta.delta->0
            } else {
                Seq::empty()
            },
            _ => Seq::empty(),
        }
    }
}

/// The id of a call: the one for its result, or else the one of its item.
pub open spec fn id_of(item: ItemView) -> Seq<char> {
    if item.call_id is Some {
        item.call_id->0
    } else if item.id is Some {
        item.id->0
    } else {
        Seq::empty()
    }
}

/// The name of a call, which is empty where it has none.
pub open spec fn name_of(item: ItemView) -> Seq<char> {
    if item.name is Some {
        item.name->0
    } else {
        Seq::empty()
    }
}

/// The arguments that a text spells: none where it is empty or is not JSON.
pub open spec fn spelled(text: Seq<char>) -> JsonView {
    if text.len() > 0 && json::parsed(text) is Some {
        json::parsed(text)->0
    } else {
        JsonView::Object(Map::empty())
    }
}

/// How many places the text of an answer takes before its calls.
pub open spec fn shift(events: Seq<ResponsesEventView>) -> int {
    if heard_text(events).len() > 0 {
        1
    } else {
        0
    }
}

proof fn lemma_call_with_id(items: Seq<ItemView>, id: Seq<char>)
    ensures
        call_with_id(items, id) matches Some(k) ==> 0 <= k < items.len(),
    decreases items.len(),
{
    if items.len() > 0 {
        lemma_call_with_id(items.drop_last(), id);
    }
}

proof fn lemma_state(model: ModelView, events: Seq<ResponsesEventView>)
    requires
        added(events).len() < usize::MAX,
    ensures
        ({
            let state = openai_responses_events::after_all(
                openai_responses_events::fresh(model),
                events,
            );
            let items = added(events);
            &&& state.text == heard_text(events)
            &&& state.text_started <==> heard_text(events).len() > 0
            &&& state.api == model.api
            &&& state.provider == model.provider
            &&& state.model_id == model.id
            &&& state.calls.len() == items.len()
            &&& forall|k: int|
                0 <= k < items.len() ==> (#[trigger] state.calls[k]).id == id_of(items[k])
                    && state.calls[k].name == name_of(items[k]) && state.calls[k].args
                    == heard_arguments(events, k)
            &&& forall|k: int| k >= items.len() ==> #[trigger] heard_arguments(events, k).len() == 0
            &&& forall|id: Seq<char>|
                #[trigger] state.item_index.contains_key(id) <==> call_with_id(items, id) is Some
            &&& forall|id: Seq<char>|
                call_with_id(items, id) matches Some(k) ==> #[trigger] state.item_index[id] == k
        }),
    decreases events.len(),
{
    if events.len() > 0 {
        let front = events.drop_last();
        assert(added(front).len() <= added(events).len());
        lemma_state(model, front);
        let start = openai_responses_events::fresh(model);
        let state = openai_responses_events::after_all(start, front);
        let next = openai_responses_events::after_all(start, events);
        let items = added(events);
        let old_items = added(front);
        assert(heard_text(front) + Seq::<char>::empty() =~= heard_text(front));
        assert(forall|k: int|
            #![trigger heard_arguments(front, k)]
            heard_arguments(front, k) + Seq::<char>::empty() =~= heard_arguments(front, k));
        if items.len() > old_items.len() {
            assert(items.drop_last() =~= old_items);
        }
        match events.last() {
            ResponsesEventView::OutputTextDelta(delta) => {
                if delta.delta is Some && delta.delta->0.len() == 0 {
                    assert(delta.delta->0 =~= Seq::empty());
                }
            },
            ResponsesEventView::FunctionCallArgumentsDelta(delta) => {
                if delta.item_id is Some {
                    lemma_call_with_id(old_items, delta.item_id->0);
                }
                let k = state.call_of(delta);
                if delta.delta is Some && k < state.calls.len() {
                    assert(k == meant(old_items, delta));
                }
            },
            _ => {},
        }
        assert forall|k: int| 0 <= k < items.len() implies (#[trigger] next.calls[k]).id == id_of(
            items[k],
        ) && next.calls[k].name == name_of(items[k]) && next.calls[k].args == heard_arguments(
            events,
            k,
        ) by {
            assert(heard_arguments(front, k) + Seq::<char>::empty() =~= heard_arguments(front, k));
            if k < old_items.len() {
                assert(state.calls[k].args == heard_arguments(front, k));
                assert(items[k] == old_items[k]);
            } else {
                assert(heard_arguments(front, k).len() == 0);
                assert(heard_arguments(events, k) =~= Seq::empty());
            }
        }
        assert forall|k: int| k >= items.len() implies #[trigger] heard_arguments(
            events,
            k,
        ).len() == 0 by {
            assert(heard_arguments(front, k).len() == 0);
        }
        assert forall|id: Seq<char>|
            (#[trigger] next.item_index.contains_key(id) <==> call_with_id(items, id) is Some) by {
            assert(state.item_index.contains_key(id) <==> call_with_id(old_items, id) is Some);
        }
        assert forall|id: Seq<char>|
            (call_with_id(items, id) matches Some(k) ==> #[trigger] next.item_index[id] == k) by {
            assert(call_with_id(old_items, id) matches Some(k) ==> state.item_index[id] == k);
        }
    }
}

/// The answer holds all the text that arrived, where any did, and then every
/// call that was added, in order, with or without the other: each call under
/// its id and its name, with the arguments that all the pieces for it spell
/// together.
pub proof fn law_answer_holds_what_arrived(
    model: ModelView,
    events: Seq<ResponsesEventView>,
    now: u64,
)
    requires
        added(events).len() < usize::MAX,
    ensures
        ({
            let content = openai_responses_events::after_all(
                openai_responses_events::fresh(model),
                events,
            ).message(now).content;
            let items = added(events);
            &&& content.len() == items.len() + shift(events)
            &&& heard_text(events).len() > 0 ==> content[0] == (ContentView::Text {
                text: heard_text(events),
            })
            &&& forall|k: int|
                0 <= k < items.len() ==> #[trigger] content[k + shift(events)] == (
                ContentView::ToolCall {
                    id: id_of(items[k]),
                    name: name_of(items[k]),
                    arguments: spelled(heard_arguments(events, k)),
                })
        }),
{
    lemma_state(model, events);
    let state = openai_responses_events::after_all(openai_responses_events::fresh(model), events);
    let items = added(events);
    let content = state.message(now).content;
    assert forall|k: int| 0 <= k < items.len() implies #[trigger] content[k + shift(events)] == (
    ContentView::ToolCall {
        id: id_of(items[k]),
        name: name_of(items[k]),
        arguments: spelled(heard_arguments(events, k)),
    }) by {
        assert(state.calls[k].args == heard_arguments(events, k));
        assert(content[k + shift(events)] == state.call_content()[k]);
    }
}

/// The end of an answer tells its text, where it has any, then each of its
/// calls with the place where it stands, and last the answer.
pub proof fn law_end_tells_the_whole_answer(
    model: ModelView,
    events: Seq<ResponsesEventView>,
    now: u64,
)
    requires
        added(events).len() < usize::MAX,
    ensures
        ({
            let state = openai_responses_events::after_all(
                openai_responses_events::fresh(model),
                events,
            );
            let ending = state.ending(now);
            let items = added(events);
            &&& ending.len() == items.len() + shift(events) + 1
            &&& heard_text(events).len() > 0 ==> ending[0] == (EventView::TextEnd {
                content_index: 0,
                content: heard_text(events),
            })
            &&& forall|k: int|
                0 <= k < items.len() ==> #[trigger] ending[k + shift(events)] == (
                EventView::ToolCallEnd {
                    content_index: (k + shift(events)) as usize,
                    id: id_of(items[k]),
                    name: name_of(items[k]),
                    arguments: spelled(heard_arguments(events, k)),
                })
            &&& ending.last() matches EventView::Done { reason, message } && message
                == state.message(now) && reason == message.stop_reason
        }),
{
    lemma_state(model, events);
    let state = openai_responses_events::after_all(openai_responses_events::fresh(model), events);
    let ending = state.ending(now);
    let items = added(events);
    assert forall|k: int| 0 <= k < items.len() implies #[trigger] ending[k + shift(events)] == (
    EventView::ToolCallEnd {
        content_index: (k + shift(events)) as usize,
        id: id_of(items[k]),
        name: name_of(items[k]),
        arguments: spelled(heard_arguments(events, k)),
    }) by {
        assert(state.calls[k].args == heard_arguments(events, k));
        assert(ending[k + shift(events)] == state.call_end(k));
    }
}

/// An answer stopped for its calls where any was added, and simply stopped
/// otherwise. It names the model that was asked, and counts nothing.
pub proof fn law_answer_names_its_model(
    model: ModelView,
    events: Seq<ResponsesEventView>,
    now: u64,
)
    requires
        added(events).len() < usize::MAX,
    ensures
        ({
            let message = openai_responses_events::after_all(
                openai_responses_events::fresh(model),
                events,
            ).message(now);
            &&& added(events).len() > 0 ==> message.stop_reason == StopReason::ToolUse
            &&& added(events).len() == 0 ==> message.stop_reason == StopReason::Stop
            &&& message.model == model.id
            &&& message.api == model.api
            &&& message.provider == model.provider
            &&& message.error_message is None
            &&& message.timestamp == now
            &&& message.usage.input == 0
            &&& message.usage.output == 0
            &&& message.usage.cache_read == 0
            &&& message.usage.cache_write == 0
            &&& message.usage.total_tokens == 0
            &&& message.usage.cost_bits == 0
            &&& !message.usage.priced
        }),
{
    lemma_state(model, events);
}

/// What is told when an event arrives, given all that arrived before.
pub open spec fn tells(before: Seq<ResponsesEventView>, event: ResponsesEventView) -> Seq<
    EventView,
> {
    match event {
        ResponsesEventView::OutputTextDelta(DeltaView { delta: Some(text), .. }) => if text.len()
            == 0 {
            Seq::empty()
        } else if heard_text(before).len() == 0 {
            seq![
                EventView::TextStart { content_index: 0 },
                EventView::TextDelta { content_index: 0, delta: text },
            ]
        } else {
            seq![EventView::TextDelta { content_index: 0, delta: text }]
        },
        ResponsesEventView::OutputItemAdded { item: Some(item) } => if item.item_type
            == "function_call"@ {
            seq![
                EventView::ToolCallStart {
                    content_index: (added(before).len() + shift(before)) as usize,
                    id: id_of(item),
                    name: name_of(item),
                },
            ]
        } else {
            Seq::empty()
        },
        ResponsesEventView::FunctionCallArgumentsDelta(delta) => {
            let k = meant(added(before), delta);
            if delta.delta is Some && 0 <= k < added(before).len() {
                seq![
                    EventView::ToolCallDelta {
                        content_index: (k + shift(before)) as usize,
                        delta: delta.delta->0,
                    },
                ]
            } else {
                Seq::empty()
            }
        },
        _ => Seq::empty(),
    }
}

/// Each event is told as it arrives: the first text with its start, each piece
/// of text and of arguments as it is, and each call when it is added. Reading
/// goes on until the answer is complete.
pub proof fn law_events_are_told_as_they_arrive(
    model: ModelView,
    before: Seq<ResponsesEventView>,
    event: ResponsesEventView,
)
    requires
        added(before).len() < usize::MAX,
    ensures
        ({
            let state = openai_responses_events::after_all(
                openai_responses_events::fresh(model),
                before,
            );
            let step = openai_responses_events::step_of(
                state,
                IncomingView::Record(Some(event)),
            ).1;
            &&& step.events == tells(before, event)
            &&& event is Completed ==> step.next == NextView::Finish
            &&& !(event is Completed) ==> step.next == NextView::Read
        }),
{
    lemma_state(model, before);
    let state = openai_responses_events::after_all(openai_responses_events::fresh(model), before);
    if let ResponsesEventView::FunctionCallArgumentsDelta(delta) = event {
        if delta.item_id is Some {
            lemma_call_with_id(added(before), delta.item_id->0);
            assert(state.item_index.contains_key(delta.item_id->0) <==> call_with_id(
                added(before),
                delta.item_id->0,
            ) is Some);
        }
    }
}

/// A reader who gave up and a broken transport end the stream with an error and
/// nothing told; a record that holds no event is passed over.
pub proof fn law_transport(state: ResponsesView, reason: Seq<char>, event: ResponsesEventView)
    ensures
        openai_responses_events::step_of(state, IncomingView::Cancelled) == (
            state,
            StepView {
                events: Seq::empty(),
                next: NextView::Fail(StreamErrorView::Cancelled),
            },
        ),
        openai_responses_events::step_of(state, IncomingView::Broken(reason)) == (
            state,
            StepView {
                events: Seq::empty(),
                next: NextView::Fail(StreamErrorView::InvalidResponse("sse: "@ + reason)),
            },
        ),
        openai_responses_events::step_of(state, IncomingView::Record(None)) == (
            state,
            StepView { events: Seq::empty(), next: NextView::Read },
        ),
        openai_responses_events::step_of(state, IncomingView::Record(Some(event))).0
            == state.after(event),
{
}

/// A record is read by its name, and only where it holds data.
pub proof fn law_records_are_read_by_name(name: Seq<char>, data: Seq<char>)
    ensures
        data.len() == 0 ==> openai_responses_events::kind_of(name, data) == RecordKind::Ignored,
        data.len() > 0 ==> {
            let kind = openai_responses_events::kind_of(name, data);
            &&& kind == RecordKind::OutputTextDelta <==> name == "response.output_text.delta"@
            &&& kind == RecordKind::OutputItemAdded <==> name == "response.output_item.added"@
            &&& kind == RecordKind::FunctionCallArgumentsDelta <==> name
                == "response.function_call_arguments.delta"@
            &&& kind == RecordKind::Completed <==> name == "response.completed"@
        },
{
    reveal_strlit("response.output_text.delta");
    reveal_strlit("response.output_item.added");
    reveal_strlit("response.function_call_arguments.delta");
    reveal_strlit("response.completed");
    assert("response.output_text.delta"@.len() == 26 && "response.output_item.added"@.len() == 26);
    assert("response.output_text.delta"@[16] != "response.output_item.added"@[16]);
    assert("response.function_call_arguments.delta"@.len() == 38);
    assert("response.completed"@.len() == 18);
}

} // verus!
