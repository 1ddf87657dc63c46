//! What a whole Google answer comes to, in terms of the chunks that arrived.

use vstd::prelude::*;

use crate::providers::google_events;
use crate::providers::google_events::{
    CandidateView, ChunkView, GoogleView, PartView, ToolBlockView,
};
use crate::providers::stream::{IncomingView, NextView, StepView};
use crate::text;
use crate::types::{ContentView, EventView, ModelView, StreamErrorView};

verus! {

/// The parts of some candidates, one after the other.
pub open spec fn parts_among(candidates: Seq<CandidateView>) -> Seq<PartView>
    decreases candidates.len(),
{
    if candidates.len() == 0 {
        Seq::empty()
    } else {
        parts_among(candidates.drop_last()) + match candidates.last().parts {
            Some(parts) => parts,
            None => Seq::empty(),
        }
    }
}

/// The parts of all the candidates of some chunks, one after the other.
pub open spec fn parts_in(chunks: Seq<ChunkView>) -> Seq<PartView>
    decreases chunks.len(),
{
    if chunks.len() == 0 {
        Seq::empty()
    } else {
        parts_in(chunks.drop_last()) + parts_among(chunks.last().candidates)
    }
}

/// All the text of some parts.
pub open spec fn heard_text(parts: Seq<PartView>) -> Seq<char>
    decreases parts.len(),
{
    if parts.len() == 0 {
        Seq::empty()
    } else {
        heard_text(parts.drop_last()) + match parts.last().text {
            Some(text) => text,
            None => Seq::empty(),
        }
    }
}

/// The calls of some parts, in order, numbered from one.
pub open spec fn heard_calls(parts: Seq<PartView>) -> Seq<ContentView>
    decreases parts.len(),
{
    if parts.len() == 0 {
        Seq::empty()
    } else {
        let front = heard_calls(parts.drop_last());
        match parts.last().function_call {
            Some(call) => front.push(
                ContentView::ToolCall {
                    id: "call_"@ + text::decimal(front.len() + 1),
                    name: call.name,
                    arguments: call.args,
                },
            ),
            None => front,
        }
    }
}

/// What is told of a part, given the text and the calls before it.
pub open spec fn tells(text: Seq<char>, calls: nat, part: PartView) -> Seq<EventView> {
    let some_text = part.text is Some && part.text->0.len() > 0;
    let place = calls + if text.len() > 0 || some_text {
        1int
    } else {
        0int
    };
    let id = "call_"@ + text::decimal(calls + 1);
    (if some_text && text.len() == 0 {
        seq![EventView::TextStart { content_index: 0 }]
    } else {
        Seq::empty()
    }) + (if some_text {
        seq![EventView::TextDelta { content_index: 0, delta: part.text->0 }]
    } else {
        Seq::empty()
    }) + match part.function_call {
        Some(call) => seq![
            EventView::ToolCallStart { content_index: place as usize, id, name: call.name },
            EventView::ToolCallEnd {
                content_index: place as usize,
                id,
                name: call.name,
                arguments: call.args,
            },
        ],
        None => Seq::empty(),
    }
}

/// All that is told of some parts.
pub open spec fn all_told(parts: Seq<PartView>) -> Seq<EventView>
    decreases parts.len(),
{
    if parts.len() == 0 {
        Seq::empty()
    } else {
        let front = parts.drop_last();
        all_told(front) + tells(heard_text(front), heard_calls(front).len(), parts.last())
    }
}

/// The last counts that were reported.
pub open spec fn last_counts(chunks: Seq<ChunkView>) -> (u64, u64, u64)
    decreases chunks.len(),
{
    if chunks.len() == 0 {
        (0, 0, 0)
    } else {
        match chunks.last().usage_metadata {
            Some(u) => (u.prompt_token_count, u.candidates_token_count, u.total_token_count),
            None => last_counts(chunks.drop_last()),
        }
    }
}

/// The last version of the model that was named.
pub open spec fn last_model(chunks: Seq<ChunkView>) -> Option<Seq<char>>
    decreases chunks.len(),
{
    if chunks.len() == 0 {
        None
    } else {
        match chunks.last().model_version {
            Some(model) => Some(model),
            None => last_model(chunks.drop_last()),
        }
    }
}

/// What a call is in the content of an answer.
spec fn as_content(call: ToolBlockView) -> ContentView {
    ContentView::ToolCall { id: call.id, name: call.name, arguments: call.args }
}

spec fn holds(state: GoogleView, parts: Seq<PartView>, told: Seq<EventView>) -> bool {
    &&& state.text == heard_text(parts)
    &&& state.text_started <==> heard_text(parts).len() > 0
    &&& state.calls.map_values(|call: ToolBlockView| as_content(call)) == heard_calls(parts)
    &&& told == all_told(parts)
}

/// What a part leaves alone.
spec fn same_frame(one: GoogleView, other: GoogleView) -> bool {
    &&& one.usage == other.usage
    &&& one.response_model == other.response_model
    &&& one.api == other.api
    &&& one.provider == other.provider
    &&& one.model_id == other.model_id
}

proof fn lemma_part(
    state: GoogleView,
    parts: Seq<PartView>,
    told: Seq<EventView>,
    part: PartView,
)
    requires
        holds(state, parts, told),
    ensures
        holds(state.after_part(part), parts.push(part), told + state.told_part(part)),
        same_frame(state.after_part(part), state),
{
    let all = parts.push(part);
    let next = state.after_part(part);
    assert(all.drop_last() =~= parts);
    assert(heard_text(parts) + Seq::<char>::empty() =~= heard_text(parts));
    if part.text is Some && part.text->0.len() == 0 {
        assert(part.text->0 =~= Seq::empty());
    }
    let convert = |call: ToolBlockView| as_content(call);
    assert(state.calls.map_values(convert).len() == state.calls.len());
    if part.function_call is Some {
        assert(next.calls.map_values(convert) =~= state.calls.map_values(convert).push(
            as_content(next.calls.last()),
        ));
    }
    assert(state.told_part(part) =~= tells(heard_text(parts), heard_calls(parts).len(), part));
}

proof fn lemma_parts(
    state: GoogleView,
    parts: Seq<PartView>,
    told: Seq<EventView>,
    more: Seq<PartView>,
)
    requires
        holds(state, parts, told),
    ensures
        holds(state.after_parts(more), parts + more, told + state.told_parts(more)),
        same_frame(state.after_parts(more), state),
    decreases more.len(),
{
    if more.len() == 0 {
        assert(parts + more =~= parts);
        assert(told + state.told_parts(more) =~= told);
    } else {
        let front = more.drop_last();
        lemma_parts(state, parts, told, front);
        lemma_part(
            state.after_parts(front),
            parts + front,
            told + state.told_parts(front),
            more.last(),
        );
        assert((parts + front).push(more.last()) =~= parts + more);
        assert(told + state.told_parts(more) =~= (told + state.told_parts(front))
            + state.after_parts(front).told_part(more.last()));
    }
}

proof fn lemma_candidates(
    state: GoogleView,
    parts: Seq<PartView>,
    told: Seq<EventView>,
    candidates: Seq<CandidateView>,
)
    requires
        holds(state, parts, told),
    ensures
        holds(
            state.after_candidates(candidates),
            parts + parts_among(candidates),
            told + state.told_candidates(candidates),
        ),
        same_frame(state.after_candidates(candidates), state),
    decreases candidates.len(),
{
    if candidates.len() == 0 {
        assert(parts + parts_among(candidates) =~= parts);
        assert(told + state.told_candidates(candidates) =~= told);
    } else {
        let front = candidates.drop_last();
        lemma_candidates(state, parts, told, front);
        let mid = state.after_candidates(front).after_reason(candidates.last());
        let more = GoogleView::parts_of(candidates.last());
        lemma_parts(
            mid,
            parts + parts_among(front),
            told + state.told_candidates(front),
            more,
        );
        assert(parts + parts_among(candidates) =~= parts + parts_among(front) + more);
        assert(told + state.told_candidates(candidates) =~= told + state.told_candidates(front)
            + mid.told_parts(more));
    }
}

proof fn lemma_chunks(model: ModelView, chunks: Seq<ChunkView>)
    ensures
        ({
            let start = google_events::fresh(model);
            let state = google_events::after_all(start, chunks);
            &&& holds(state, parts_in(chunks), google_events::told_all(start, chunks))
            &&& state.api == model.api
            &&& state.provider == model.provider
            &&& state.model_id == model.id
            &&& state.response_model == last_model(chunks)
            &&& (state.usage.input, state.usage.output, state.usage.total_tokens) == last_counts(
                chunks,
            )
            &&& state.usage.cache_read == 0
            &&& state.usage.cache_write == 0
            &&& state.usage.cost_bits == 0
        }),
    decreases chunks.len(),
{
    let start = google_events::fresh(model);
    if chunks.len() == 0 {
        assert(start.calls.map_values(|call: ToolBlockView| as_content(call)) =~= Seq::empty());
    } else {
        let front = chunks.drop_last();
        lemma_chunks(model, front);
        lemma_candidates(
            google_events::after_all(start, front).after_counts(chunks.last()),
            parts_in(front),
            google_events::told_all(start, front),
            chunks.last().candidates,
        );
    }
}

/// The answer holds all the text that arrived, where any did, and then every
/// call that arrived, in order and numbered from one, with or without the
/// other.
pub proof fn law_answer_holds_what_arrived(model: ModelView, chunks: Seq<ChunkView>, now: u64)
    ensures
        ({
            let content = google_events::after_all(
                google_events::fresh(model),
                chunks,
            ).message(now).content;
            let text = heard_text(parts_in(chunks));
            let calls = heard_calls(parts_in(chunks));
            &&& text.len() > 0 ==> content == seq![ContentView::Text { text }] + calls
            &&& text.len() == 0 ==> content == calls
        }),
{
    lemma_chunks(model, chunks);
    let state = google_events::after_all(google_events::fresh(model), chunks);
    assert(state.call_content() =~= state.calls.map_values(
        |call: ToolBlockView| as_content(call),
    ));
}

/// All that is told while an answer arrives: of each part its text, with a start
/// before the first one, and its call, with its place as far as is known.
pub proof fn law_parts_are_told_as_they_arrive(model: ModelView, chunks: Seq<ChunkView>)
    ensures
        google_events::told_all(google_events::fresh(model), chunks) == all_told(parts_in(chunks)),
{
    lemma_chunks(model, chunks);
}

/// The end of an answer tells its text, where it has any, and then the answer.
pub proof fn law_end_tells_the_whole_answer(model: ModelView, chunks: Seq<ChunkView>, now: u64)
    ensures
        ({
            let state = google_events::after_all(google_events::fresh(model), chunks);
            let ending = state.ending(now);
            let text = heard_text(parts_in(chunks));
            &&& text.len() > 0 ==> ending.len() == 2 && ending[0] == (EventView::TextEnd {
                content_index: 0,
                content: text,
            })
            &&& text.len() == 0 ==> ending.len() == 1
            &&& ending.last() matches EventView::Done { reason, message } && message
                == state.message(now) && reason == message.stop_reason && reason
                == state.final_stop()
        }),
{
    lemma_chunks(model, chunks);
}

/// An answer names the model that the provider last named, or else the one that
/// was asked, and holds the counts that were last reported. They are to be
/// priced.
pub proof fn law_answer_names_its_model(model: ModelView, chunks: Seq<ChunkView>, now: u64)
    ensures
        ({
            let message = google_events::after_all(google_events::fresh(model), chunks).message(
                now,
            );
            let (input, output, total) = last_counts(chunks);
            &&& last_model(chunks) matches Some(named) ==> message.model == named
            &&& last_model(chunks) is None ==> message.model == model.id
            &&& message.api == model.api
            &&& message.provider == model.provider
            &&& message.error_message is None
            &&& message.timestamp == now
            &&& message.usage.input == input
            &&& message.usage.output == output
            &&& message.usage.total_tokens == total
            &&& message.usage.cache_read == 0
            &&& message.usage.cache_write == 0
            &&& message.usage.cost_bits == 0
            &&& message.usage.priced
        }),
{
    lemma_chunks(model, chunks);
}

/// A reader who gave up and a broken transport end the stream with an error and
/// nothing told; a record that holds no chunk is passed over; a chunk is taken
/// whole, and reading goes on.
pub proof fn law_transport(state: GoogleView, reason: Seq<char>, chunk: ChunkView)
    ensures
        google_events::step_of(state, IncomingView::Cancelled) == (
            state,
            StepView {
                events: Seq::empty(),
                next: NextView::Fail(StreamErrorView::Cancelled),
            },
        ),
        google_events::step_of(state, IncomingView::Broken(reason)) == (
            state,
            StepView {
                events: Seq::empty(),
                next: NextView::Fail(StreamErrorView::InvalidResponse("sse: "@ + reason)),
            },
        ),
        google_events::step_of(state, IncomingView::Record(None)) == (
            state,
            StepView { events: Seq::empty(), next: NextView::Read },
        ),
        google_events::step_of(state, IncomingView::Record(Some(chunk))) == (
            state.after(chunk),
            StepView { events: state.told(chunk), next: NextView::Read },
        ),
{
}

} // verus!
