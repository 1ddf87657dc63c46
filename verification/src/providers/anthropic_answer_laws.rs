//! What a whole Anthropic answer comes to, in terms of the events that arrived.

use vstd::prelude::*;

use crate::json;
use crate::json::JsonView;
use crate::providers::anthropic_events;
use crate::providers::anthropic_events::{
    AnthropicView, BlockDeltaView, BlockKind, BlockStartView, SseEventView, UsageDelta,
};
use crate::providers::stream::{IncomingView, NextView, StepView};
use crate::types::{ContentView, EventView, ModelView, StopReason, StreamErrorView};

verus! {

/// The last stop reason that was reported.
pub open spec fn last_stop(events: Seq<SseEventView>) -> Option<Seq<char>>
    decreases events.len(),
{
    if events.len() == 0 {
        None
    } else {
        match events.last() {
            SseEventView::MessageDelta { stop_reason: Some(reason), .. } => Some(reason),
            _ => last_stop(events.drop_last()),
        }
    }
}

/// The last model that was named.
pub open spec fn last_model(events: Seq<SseEventView>) -> Option<Seq<char>>
    decreases events.len(),
{
    if events.len() == 0 {
        None
    } else {
        match events.last() {
            SseEventView::MessageStart { model: Some(model), .. } => Some(model),
            _ => last_model(events.drop_last()),
        }
    }
}

/// The counts that the starts of a message report, added up by one of them.
pub open spec fn start_sum(
    events: Seq<SseEventView>,
    count: spec_fn(UsageDelta) -> int,
) -> int
    decreases events.len(),
{
    if events.len() == 0 {
        0
    } else {
        start_sum(events.drop_last(), count) + match events.last() {
            SseEventView::MessageStart { usage: Some(u), .. } => count(u),
            _ => 0,
        }
    }
}

/// The tokens of output that were reported, added up.
pub open spec fn output_sum(events: Seq<SseEventView>) -> int
    decreases events.len(),
{
    if events.len() == 0 {
        0
    } else {
        output_sum(events.drop_last()) + match events.last() {
            SseEventView::MessageDelta { usage: Some(u), .. } => u.output_tokens as int,
            _ => 0,
        }
    }
}

/// The blocks that were started, in the order of their starts.
pub open spec fn started(events: Seq<SseEventView>) -> Seq<usize>
    decreases events.len(),
{
    if events.len() == 0 {
        Seq::empty()
    } else {
        match events.last() {
            SseEventView::ContentBlockStart { index, .. } => started(events.drop_last()).push(
                index,
            ),
            _ => started(events.drop_last()),
        }
    }
}

/// What a block was last started as, other starts than those of a text, a
/// thinking or a call aside.
pub open spec fn last_start(events: Seq<SseEventView>, at: usize) -> BlockStartView
    decreases events.len(),
{
    if events.len() == 0 {
        BlockStartView::Other
    } else {
        match events.last() {
            SseEventView::ContentBlockStart { index, content_block } => if index == at && !(
            content_block is Other) {
                content_block
            } else {
                last_start(events.drop_last(), at)
            },
            _ => last_start(events.drop_last(), at),
        }
    }
}

/// All the text and the thinking that arrived for a block.
pub open spec fn heard_text(events: Seq<SseEventView>, at: usize) -> Seq<char>
    decreases events.len(),
{
    if events.len() == 0 {
        Seq::empty()
    } else {
        heard_text(events.drop_last(), at) + match events.last() {
            SseEventView::ContentBlockDelta {
                index,
                delta: BlockDeltaView::TextDelta { text },
            } => if index == at {
                text
            } else {
                Seq::empty()
            },
            SseEventView::ContentBlockDelta {
                index,
                delta: BlockDeltaView::ThinkingDelta { thinking },
            } => if index == at {
                thinking
            } else {
                Seq::empty()
            },
            _ => Seq::empty(),
        }
    }
}

/// All the text of arguments that arrived for a block.
pub open spec fn heard_json(events: Seq<SseEventView>, at: usize) -> Seq<char>
    decreases events.len(),
{
    if events.len() == 0 {
        Seq::empty()
    } else {
        heard_json(events.drop_last(), at) + match events.last() {
            SseEventView::ContentBlockDelta {
                index,
                delta: BlockDeltaView::InputJsonDelta { partial_json },
            } => if index == at {
                partial_json
            } else {
                Seq::empty()
            },
            _ => Seq::empty(),
        }
    }
}

/// The last signature that arrived for a block.
pub open spec fn last_signature(events: Seq<SseEventView>, at: usize) -> Option<Seq<char>>
    decreases events.len(),
{
    if events.len() == 0 {
        None
    } else {
        match events.last() {
            SseEventView::ContentBlockDelta {
                index,
                delta: BlockDeltaView::SignatureDelta { signature },
            } => if index == at {
                Some(signature)
            } else {
                last_signature(events.drop_last(), at)
            },
            _ => last_signature(events.drop_last(), at),
        }
    }
}

/// The arguments that a text spells: none where it is empty or is not JSON.
pub open spec fn spelled(text: Seq<char>) -> JsonView {
    if text.len() > 0 && json::parsed(text) is Some {
        json::parsed(text)->0
    } else {
        JsonView::Object(Map::empty())
    }
}

/// What the events say that an answer holds for some blocks.
pub open spec fn pieces(order: Seq<usize>, events: Seq<SseEventView>) -> Seq<ContentView>
    decreases order.len(),
{
    if order.len() == 0 {
        Seq::empty()
    } else {
        let at = order.last();
        let front = pieces(order.drop_last(), events);
        match last_start(events, at) {
            BlockStartView::Text => front.push(
                ContentView::Text { text: heard_text(events, at) },
            ),
            BlockStartView::Thinking => front.push(
                ContentView::Thinking {
                    thinking: heard_text(events, at),
                    thinking_signature: last_signature(events, at),
                },
            ),
            BlockStartView::ToolUse { id, name } => front.push(
                ContentView::ToolCall { id, name, arguments: spelled(heard_json(events, at)) },
            ),
            BlockStartView::Other => front,
        }
    }
}

spec fn kind_of(start: BlockStartView) -> BlockKind {
    match start {
        BlockStartView::Text => BlockKind::Text,
        BlockStartView::Thinking => BlockKind::Thinking,
        BlockStartView::ToolUse { .. } => BlockKind::ToolUse,
        BlockStartView::Other => BlockKind::Unknown,
    }
}

proof fn lemma_block(model: ModelView, events: Seq<SseEventView>, at: usize)
    ensures
        ({
            let state = anthropic_events::after_all(anthropic_events::fresh(model), events);
            let block = state.block(at);
            let start = last_start(events, at);
            &&& block.text == heard_text(events, at)
            &&& block.json == heard_json(events, at)
            &&& block.signature == last_signature(events, at)
            &&& block.kind == kind_of(start)
            &&& start matches BlockStartView::ToolUse { id, name } ==> block.id == id && block.name
                == name
            &&& started(events).contains(at) ==> state.blocks.contains_key(at)
        }),
    decreases events.len(),
{
    if events.len() > 0 {
        let front = events.drop_last();
        lemma_block(model, front, at);
        let state = anthropic_events::after_all(anthropic_events::fresh(model), front);
        assert(heard_text(front, at) + Seq::<char>::empty() =~= heard_text(front, at));
        assert(heard_json(front, at) + Seq::<char>::empty() =~= heard_json(front, at));
        if started(events).contains(at) && !started(front).contains(at) {
            let k = choose|k: int| 0 <= k < started(events).len() && started(events)[k] == at;
            if k < started(front).len() {
                assert(started(front)[k] == at);
            }
        }
    }
}

proof fn lemma_order(model: ModelView, events: Seq<SseEventView>)
    ensures
        anthropic_events::after_all(anthropic_events::fresh(model), events).order == started(
            events,
        ),
        anthropic_events::after_all(anthropic_events::fresh(model), events).api == model.api,
        anthropic_events::after_all(anthropic_events::fresh(model), events).provider
            == model.provider,
        anthropic_events::after_all(anthropic_events::fresh(model), events).model_id == model.id,
        anthropic_events::after_all(anthropic_events::fresh(model), events).response_model
            == last_model(events),
        anthropic_events::after_all(anthropic_events::fresh(model), events).usage.cost_bits == 0,
    decreases events.len(),
{
    if events.len() > 0 {
        lemma_order(model, events.drop_last());
    }
}

proof fn lemma_pieces(model: ModelView, events: Seq<SseEventView>, order: Seq<usize>)
    requires
        forall|k: int| 0 <= k < order.len() ==> started(events).contains(#[trigger] order[k]),
    ensures
        anthropic_events::content_of(
            order,
            anthropic_events::after_all(anthropic_events::fresh(model), events).blocks,
        ) == pieces(order, events),
    decreases order.len(),
{
    if order.len() > 0 {
        let front = order.drop_last();
        assert(forall|k: int| 0 <= k < front.len() ==> #[trigger] front[k] == order[k]);
        lemma_pieces(model, events, front);
        assert(started(events).contains(order[order.len() - 1]));
        lemma_block(model, events, order.last());
        let blocks = anthropic_events::after_all(anthropic_events::fresh(model), events).blocks;
        let before = anthropic_events::content_of(front, blocks);
        let piece = anthropic_events::piece_of(blocks[order.last()]);
        if piece.len() > 0 {
            assert(piece =~= seq![piece[0]]);
            assert(before + piece =~= before.push(piece[0]));
        } else {
            assert(before + piece =~= before);
        }
    }
}

/// The answer holds the blocks that were started, in the order of their starts:
/// each one as what it was started as, with all that arrived for it, joined in
/// the order of its arrival. The arguments of a call are what all its pieces
/// spell together.
pub proof fn law_answer_holds_what_arrived(model: ModelView, events: Seq<SseEventView>, now: u64)
    ensures
        anthropic_events::after_all(anthropic_events::fresh(model), events).message(now).content
            == pieces(started(events), events),
{
    lemma_order(model, events);
    assert forall|k: int| 0 <= k < started(events).len() implies started(events).contains(
        #[trigger] started(events)[k],
    ) by {}
    lemma_pieces(model, events, started(events));
}

/// Why an answer stopped depends on the last stop reason that was reported and
/// on nothing else that arrived.
pub proof fn law_stop_is_the_last_reported(model: ModelView, events: Seq<SseEventView>, now: u64)
    ensures
        ({
            let state = anthropic_events::after_all(anthropic_events::fresh(model), events);
            &&& state.message(now).stop_reason == state.stop
            &&& last_stop(events) == Some("tool_use"@) ==> state.stop == StopReason::ToolUse
            &&& last_stop(events) == Some("max_tokens"@) ==> state.stop == StopReason::Length
            &&& last_stop(events) != Some("tool_use"@) && last_stop(events) != Some("max_tokens"@)
                ==> state.stop == StopReason::Stop
        }),
    decreases events.len(),
{
    reveal_strlit("tool_use");
    reveal_strlit("max_tokens");
    assert("tool_use"@.len() != "max_tokens"@.len());
    if events.len() > 0 {
        law_stop_is_the_last_reported(model, events.drop_last(), now);
    }
}

proof fn lemma_sums(events: Seq<SseEventView>)
    ensures
        0 <= start_sum(events, |u: UsageDelta| u.input_tokens as int),
        0 <= start_sum(events, |u: UsageDelta| u.cache_read_input_tokens as int),
        0 <= start_sum(events, |u: UsageDelta| u.cache_creation_input_tokens as int),
        0 <= output_sum(events),
    decreases events.len(),
{
    if events.len() > 0 {
        lemma_sums(events.drop_last());
    }
}

/// The counts of an answer are those that were reported, added up: what went in
/// and what the cache did by the starts of the message, what came out by its
/// deltas. The total is what went in and what came out. They are to be priced.
pub proof fn law_counts_are_added_up(model: ModelView, events: Seq<SseEventView>, now: u64)
    requires
        start_sum(events, |u: UsageDelta| u.input_tokens as int) + output_sum(events) <= u64::MAX,
        start_sum(events, |u: UsageDelta| u.cache_read_input_tokens as int) <= u64::MAX,
        start_sum(events, |u: UsageDelta| u.cache_creation_input_tokens as int) <= u64::MAX,
    ensures
        ({
            let state = anthropic_events::after_all(anthropic_events::fresh(model), events);
            let usage = state.message(now).usage;
            &&& usage.input == start_sum(events, |u: UsageDelta| u.input_tokens as int)
            &&& usage.output == output_sum(events)
            &&& usage.cache_read == start_sum(
                events,
                |u: UsageDelta| u.cache_read_input_tokens as int,
            )
            &&& usage.cache_write == start_sum(
                events,
                |u: UsageDelta| u.cache_creation_input_tokens as int,
            )
            &&& usage.total_tokens == usage.input + usage.output
            &&& usage.priced
            &&& usage.cost_bits == 0
            &&& state.usage.input == usage.input
            &&& state.usage.output == usage.output
            &&& state.usage.cache_read == usage.cache_read
            &&& state.usage.cache_write == usage.cache_write
            &&& state.usage.total_tokens == 0
        }),
    decreases events.len(),
{
    lemma_order(model, events);
    if events.len() > 0 {
        lemma_sums(events.drop_last());
        law_counts_are_added_up(model, events.drop_last(), now);
    }
}

/// An answer names the model that the provider last named, or else the one that
/// was asked, and the provider and the API of the one that was asked.
pub proof fn law_answer_names_its_model(model: ModelView, events: Seq<SseEventView>, now: u64)
    ensures
        ({
            let message = anthropic_events::after_all(
                anthropic_events::fresh(model),
                events,
            ).message(now);
            &&& last_model(events) matches Some(named) ==> message.model == named
            &&& last_model(events) is None ==> message.model == model.id
            &&& message.api == model.api
            &&& message.provider == model.provider
            &&& message.error_message is None
            &&& message.timestamp == now
        }),
{
    lemma_order(model, events);
}

/// What is told when an event arrives, given all that arrived before.
pub open spec fn tells(before: Seq<SseEventView>, event: SseEventView) -> Seq<EventView> {
    match event {
        SseEventView::ContentBlockStart { index, content_block } => match content_block {
            BlockStartView::Text => seq![EventView::TextStart { content_index: index }],
            BlockStartView::Thinking => seq![EventView::ThinkingStart { content_index: index }],
            BlockStartView::ToolUse { id, name } => seq![
                EventView::ToolCallStart { content_index: index, id, name },
            ],
            BlockStartView::Other => Seq::empty(),
        },
        SseEventView::ContentBlockDelta { index, delta } => match delta {
            BlockDeltaView::TextDelta { text } => seq![
                EventView::TextDelta { content_index: index, delta: text },
            ],
            BlockDeltaView::ThinkingDelta { thinking } => seq![
                EventView::ThinkingDelta { content_index: index, delta: thinking },
            ],
            BlockDeltaView::InputJsonDelta { partial_json } => seq![
                EventView::ToolCallDelta { content_index: index, delta: partial_json },
            ],
            _ => Seq::empty(),
        },
        SseEventView::ContentBlockStop { index } => match last_start(before, index) {
            BlockStartView::Text => seq![
                EventView::TextEnd { content_index: index, content: heard_text(before, index) },
            ],
            BlockStartView::Thinking => seq![
                EventView::ThinkingEnd {
                    content_index: index,
                    content: heard_text(before, index),
                },
            ],
            BlockStartView::ToolUse { id, name } => seq![
                EventView::ToolCallEnd {
                    content_index: index,
                    id,
                    name,
                    arguments: spelled(heard_json(before, index)),
                },
            ],
            BlockStartView::Other => Seq::empty(),
        },
        _ => Seq::empty(),
    }
}

/// Each event is told as it arrives: the start of a block by its kind, each
/// piece of it as it is, and its end with all that arrived for it. Nothing else
/// is told, and reading goes on, but for an error.
pub proof fn law_events_are_told_as_they_arrive(
    model: ModelView,
    before: Seq<SseEventView>,
    event: SseEventView,
    now: u64,
)
    requires
        !(event is Error),
    ensures
        ({
            let state = anthropic_events::after_all(anthropic_events::fresh(model), before);
            let step = anthropic_events::step_of(state, IncomingView::Record(Some(event)), now).1;
            &&& step.events == tells(before, event)
            &&& step.next == NextView::Read
        }),
{
    if let SseEventView::ContentBlockStop { index } = event {
        lemma_block(model, before, index);
    }
}

/// An error that the provider reports ends the stream with an answer without
/// content, which holds the kind and the message of the error and the counts
/// and the model so far.
pub proof fn law_error_is_told(
    model: ModelView,
    before: Seq<SseEventView>,
    kind: Seq<char>,
    message: Seq<char>,
    now: u64,
)
    ensures
        ({
            let state = anthropic_events::after_all(anthropic_events::fresh(model), before);
            let step = anthropic_events::step_of(
                state,
                IncomingView::Record(Some(SseEventView::Error { kind, message })),
                now,
            ).1;
            &&& step.next == NextView::Close
            &&& step.events.len() == 1
            &&& step.events[0] matches EventView::Error { reason, error } && {
                &&& reason == StopReason::Error
                &&& error.stop_reason == StopReason::Error
                &&& error.content.len() == 0
                &&& error.error_message == Some(kind + ": "@ + message)
                &&& error.api == model.api
                &&& error.provider == model.provider
                &&& error.model == match last_model(before) {
                    Some(named) => named,
                    None => model.id,
                }
                &&& error.timestamp == now
                &&& error.usage.priced
                &&& error.usage.input == state.usage.input
                &&& error.usage.output == state.usage.output
                &&& error.usage.cache_read == state.usage.cache_read
                &&& error.usage.cache_write == state.usage.cache_write
                &&& error.usage.total_tokens == state.usage.total_tokens
                &&& error.usage.cost_bits == 0
            }
        }),
{
    lemma_order(model, before);
}

/// A reader who gave up and a broken transport end the stream with an error and
/// nothing told; a record that holds no event is passed over.
pub proof fn law_transport(state: AnthropicView, reason: Seq<char>, event: SseEventView, now: u64)
    ensures
        anthropic_events::step_of(state, IncomingView::Cancelled, now) == (
            state,
            StepView {
                events: Seq::empty(),
                next: NextView::Fail(StreamErrorView::Cancelled),
            },
        ),
        anthropic_events::step_of(state, IncomingView::Broken(reason), now) == (
            state,
            StepView {
                events: Seq::empty(),
                next: NextView::Fail(StreamErrorView::InvalidResponse("sse: "@ + reason)),
            },
        ),
        anthropic_events::step_of(state, IncomingView::Record(None), now) == (
            state,
            StepView { events: Seq::empty(), next: NextView::Read },
        ),
        anthropic_events::step_of(state, IncomingView::Record(Some(event)), now).0 == state.after(
            event,
        ),
{
}

/// Events are taken as long as the counts that they report can be added up.
pub proof fn law_counts_that_fit_are_taken(state: AnthropicView, event: SseEventView)
    ensures
        state.fits(event) <==> match event {
            SseEventView::MessageStart { usage: Some(u), .. } => state.usage.input
                + u.input_tokens <= u64::MAX && state.usage.cache_read + u.cache_read_input_tokens
                <= u64::MAX && state.usage.cache_write + u.cache_creation_input_tokens
                <= u64::MAX,
            SseEventView::MessageDelta { usage: Some(u), .. } => state.usage.output
                + u.output_tokens <= u64::MAX,
            _ => true,
        },
{
}

} // verus!
