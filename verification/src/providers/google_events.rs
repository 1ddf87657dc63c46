//! Reading the chunks of a Google answer.

use vstd::prelude::*;

use crate::json::{Json, JsonView};
use crate::providers::stream;
use crate::providers::stream::{Incoming, IncomingView, Next, NextView, Step, StepView};
use crate::text;
use crate::text::decimal_text;
use crate::types::{
    AssistantMessage, AssistantMessageEvent, AssistantView, Content, ContentView, EventView, Model,
    ModelView, StopReason, StreamError, StreamErrorView, Usage,
};

verus! {

/// A call of a tool.
#[derive(Debug, PartialEq)]
pub struct FunctionCall {
    pub name: String,
    pub args: Json,
}

/// A part of a candidate: text, a call, or both.
#[derive(Debug, PartialEq)]
pub struct Part {
    pub text: Option<String>,
    pub function_call: Option<FunctionCall>,
}

/// The content of a candidate.
#[derive(Debug, PartialEq)]
pub struct CandidateContent {
    pub parts: Vec<Part>,
}

/// One candidate for the answer.
#[derive(Debug, PartialEq)]
pub struct Candidate {
    pub content: Option<CandidateContent>,
    pub finish_reason: Option<String>,
}

/// Token counts of the answer so far.
#[derive(Clone, Copy, Debug, PartialEq, Eq)]
pub struct UsageMetadata {
    pub prompt_token_count: u64,
    pub candidates_token_count: u64,
    pub total_token_count: u64,
}

/// One chunk of an answer.
#[derive(Debug, PartialEq)]
pub struct Chunk {
    pub candidates: Vec<Candidate>,
    pub usage_metadata: Option<UsageMetadata>,
    pub model_version: Option<String>,
}

/// The model of [`FunctionCall`].
pub struct FunctionCallView {
    pub name: Seq<char>,
    pub args: JsonView,
}

/// The model of [`Part`].
pub struct PartView {
    pub text: Option<Seq<char>>,
    pub function_call: Option<FunctionCallView>,
}

/// The model of [`Candidate`], with the parts of its content.
pub struct CandidateView {
    pub parts: Option<Seq<PartView>>,
    pub finish_reason: Option<Seq<char>>,
}

/// The model of [`Chunk`].
pub struct ChunkView {
    pub candidates: Seq<CandidateView>,
    pub usage_metadata: Option<UsageMetadata>,
    pub model_version: Option<Seq<char>>,
}

impl DeepView for FunctionCall {
    type V = FunctionCallView;

    open spec fn deep_view(&self) -> FunctionCallView {
        FunctionCallView { name: self.name@, args: self.args@ }
    }
}

impl DeepView for Part {
    type V = PartView;

    open spec fn deep_view(&self) -> PartView {
        PartView { text: self.text.deep_view(), function_call: self.function_call.deep_view() }
    }
}

impl DeepView for Candidate {
    type V = CandidateView;

    open spec fn deep_view(&self) -> CandidateView {
        CandidateView {
            parts: match self.content {
                Some(content) => Some(content.parts.deep_view()),
                None => None,
            },
            finish_reason: self.finish_reason.deep_view(),
        }
    }
}

impl DeepView for Chunk {
    type V = ChunkView;

    open spec fn deep_view(&self) -> ChunkView {
        ChunkView {
            candidates: self.candidates.deep_view(),
            usage_metadata: self.usage_metadata,
            model_version: self.model_version.deep_view(),
        }
    }
}

impl FunctionCall {
    /// Whether a call means that the model stopped to have it made, if no other
    /// reason is reported. The provider does not say so in its finish reason, so
    /// every call does.
    pub fn finish_reason_set_to_tool_use(&self) -> (yes: bool)
        ensures
            yes,
    {
        true
    }
}

/// A call that has arrived.
#[derive(Debug, PartialEq)]
struct ToolBlock {
    id: String,
    name: String,
    args: Json,
}

/// The model of a call that has arrived.
pub struct ToolBlockView {
    pub id: Seq<char>,
    pub name: Seq<char>,
    pub args: JsonView,
}

impl DeepView for ToolBlock {
    type V = ToolBlockView;

    closed spec fn deep_view(&self) -> ToolBlockView {
        ToolBlockView { id: self.id@, name: self.name@, args: self.args@ }
    }
}

/// The reading of one answer.
pub struct GoogleStream {
    text_buf: String,
    text_started: bool,
    tool_blocks: Vec<ToolBlock>,
    stop: StopReason,
    usage: Usage,
    response_model: Option<String>,
    api: String,
    provider: String,
    model_id: String,
}

/// The model of [`GoogleStream`].
pub struct GoogleView {
    /// All the text that has arrived.
    pub text: Seq<char>,
    /// Whether any text has arrived.
    pub text_started: bool,
    pub calls: Seq<ToolBlockView>,
    pub stop: StopReason,
    pub usage: Usage,
    pub response_model: Option<Seq<char>>,
    pub api: Seq<char>,
    pub provider: Seq<char>,
    pub model_id: Seq<char>,
}

impl View for GoogleStream {
    type V = GoogleView;

    closed spec fn view(&self) -> GoogleView {
        GoogleView {
            text: self.text_buf@,
            text_started: self.text_started,
            calls: self.tool_blocks.deep_view(),
            stop: self.stop,
            usage: self.usage,
            response_model: self.response_model.deep_view(),
            api: self.api@,
            provider: self.provider@,
            model_id: self.model_id@,
        }
    }
}

/// An answer of which nothing has arrived.
pub open spec fn fresh(model: ModelView) -> GoogleView {
    GoogleView {
        text: Seq::empty(),
        text_started: false,
        calls: Seq::empty(),
        stop: StopReason::Stop,
        usage: Usage::zero(),
        response_model: None,
        api: model.api,
        provider: model.provider,
        model_id: model.id,
    }
}

/// Why the model stopped, by the reason that the provider gives.
pub open spec fn stop_of(reason: Seq<char>) -> StopReason {
    if reason == "MAX_TOKENS"@ {
        StopReason::Length
    } else {
        StopReason::Stop
    }
}

/// The id of a call, by how many came before it.
pub open spec fn call_id(before: nat) -> Seq<char> {
    "call_"@ + text::decimal(before + 1)
}

impl GoogleView {
    /// The place of a call in the answer, as far as text has arrived.
    pub open spec fn place(self, call: int) -> usize {
        (call + if self.text_started {
            1int
        } else {
            0int
        }) as usize
    }

    /// Whether a part holds text.
    pub open spec fn has_text(part: PartView) -> bool {
        part.text is Some && part.text->0.len() > 0
    }

    /// The answer after the text of a part.
    pub open spec fn after_text(self, part: PartView) -> GoogleView {
        if Self::has_text(part) {
            GoogleView { text: self.text + part.text->0, text_started: true, ..self }
        } else {
            self
        }
    }

    /// The answer after the call of a part.
    pub open spec fn after_call(self, part: PartView) -> GoogleView {
        match part.function_call {
            Some(call) => GoogleView {
                calls: self.calls.push(
                    ToolBlockView {
                        id: call_id(self.calls.len()),
                        name: call.name,
                        args: call.args,
                    },
                ),
                stop: if self.stop == StopReason::Stop {
                    StopReason::ToolUse
                } else {
                    self.stop
                },
                ..self
            },
            None => self,
        }
    }

    /// What the text of a part tells.
    pub open spec fn told_text(self, part: PartView) -> Seq<EventView> {
        if Self::has_text(part) {
            let told = EventView::TextDelta { content_index: 0, delta: part.text->0 };
            if self.text_started {
                seq![told]
            } else {
                seq![EventView::TextStart { content_index: 0 }, told]
            }
        } else {
            Seq::empty()
        }
    }

    /// What the call of a part tells.
    pub open spec fn told_call(self, part: PartView) -> Seq<EventView> {
        match part.function_call {
            Some(call) => {
                let content_index = self.place(self.calls.len() as int);
                let id = call_id(self.calls.len());
                seq![
                    EventView::ToolCallStart { content_index, id, name: call.name },
                    EventView::ToolCallEnd {
                        content_index,
                        id,
                        name: call.name,
                        arguments: call.args,
                    },
                ]
            },
            None => Seq::empty(),
        }
    }

    /// The answer after a part.
    pub open spec fn after_part(self, part: PartView) -> GoogleView {
        self.after_text(part).after_call(part)
    }

    /// What a part tells: first of its text, then of its call.
    pub open spec fn told_part(self, part: PartView) -> Seq<EventView> {
        self.told_text(part) + self.after_text(part).told_call(part)
    }

    /// The answer after some parts.
    pub open spec fn after_parts(self, parts: Seq<PartView>) -> GoogleView
        decreases parts.len(),
    {
        if parts.len() == 0 {
            self
        } else {
            self.after_parts(parts.drop_last()).after_part(parts.last())
        }
    }

    /// What some parts tell.
    pub open spec fn told_parts(self, parts: Seq<PartView>) -> Seq<EventView>
        decreases parts.len(),
    {
        if parts.len() == 0 {
            Seq::empty()
        } else {
            self.told_parts(parts.drop_last()) + self.after_parts(parts.drop_last()).told_part(
                parts.last(),
            )
        }
    }

    /// The answer after the finish reason of a candidate.
    pub open spec fn after_reason(self, candidate: CandidateView) -> GoogleView {
        match candidate.finish_reason {
            Some(reason) => GoogleView { stop: stop_of(reason), ..self },
            None => self,
        }
    }

    /// The parts of a candidate.
    pub open spec fn parts_of(candidate: CandidateView) -> Seq<PartView> {
        match candidate.parts {
            Some(parts) => parts,
            None => Seq::empty(),
        }
    }

    /// The answer after a candidate.
    pub open spec fn after_candidate(self, candidate: CandidateView) -> GoogleView {
        self.after_reason(candidate).after_parts(Self::parts_of(candidate))
    }

    /// The answer after some candidates.
    pub open spec fn after_candidates(self, candidates: Seq<CandidateView>) -> GoogleView
        decreases candidates.len(),
    {
        if candidates.len() == 0 {
            self
        } else {
            self.after_candidates(candidates.drop_last()).after_candidate(candidates.last())
        }
    }

    /// What some candidates tell.
    pub open spec fn told_candidates(self, candidates: Seq<CandidateView>) -> Seq<EventView>
        decreases candidates.len(),
    {
        if candidates.len() == 0 {
            Seq::empty()
        } else {
            self.told_candidates(candidates.drop_last()) + self.after_candidates(
                candidates.drop_last(),
            ).after_reason(candidates.last()).told_parts(Self::parts_of(candidates.last()))
        }
    }

    /// The answer after what a chunk says of the whole of it.
    pub open spec fn after_counts(self, chunk: ChunkView) -> GoogleView {
        GoogleView {
            response_model: match chunk.model_version {
                Some(model) => Some(model),
                None => self.response_model,
            },
            usage: match chunk.usage_metadata {
                Some(u) => Usage {
                    input: u.prompt_token_count,
                    output: u.candidates_token_count,
                    total_tokens: u.total_token_count,
                    ..self.usage
                },
                None => self.usage,
            },
            ..self
        }
    }

    /// The answer after a chunk.
    pub open spec fn after(self, chunk: ChunkView) -> GoogleView {
        self.after_counts(chunk).after_candidates(chunk.candidates)
    }

    /// What a chunk tells.
    pub open spec fn told(self, chunk: ChunkView) -> Seq<EventView> {
        self.after_counts(chunk).told_candidates(chunk.candidates)
    }

    /// Why the model stopped: to have its calls made, where there are any and
    /// the limit was not reported last.
    pub open spec fn final_stop(self) -> StopReason {
        if self.calls.len() > 0 && self.stop == StopReason::Stop {
            StopReason::ToolUse
        } else {
            self.stop
        }
    }

    /// The calls as content of the answer.
    pub open spec fn call_content(self) -> Seq<ContentView> {
        self.calls.map_values(
            |call: ToolBlockView|
                ContentView::ToolCall { id: call.id, name: call.name, arguments: call.args },
        )
    }

    /// The content of the answer: its text, where any has arrived, and its calls.
    pub open spec fn content(self) -> Seq<ContentView> {
        if self.text_started {
            seq![ContentView::Text { text: self.text }] + self.call_content()
        } else {
            self.call_content()
        }
    }

    /// The whole answer.
    pub open spec fn message(self, now: u64) -> AssistantView {
        AssistantView {
            content: self.content(),
            api: self.api,
            provider: self.provider,
            model: match self.response_model {
                Some(model) => model,
                None => self.model_id,
            },
            usage: Usage { priced: true, ..self.usage },
            stop_reason: self.final_stop(),
            error_message: None,
            timestamp: now,
        }
    }

    /// What the end of the answer tells.
    pub open spec fn ending(self, now: u64) -> Seq<EventView> {
        let done = EventView::Done { reason: self.final_stop(), message: self.message(now) };
        if self.text_started {
            seq![EventView::TextEnd { content_index: 0, content: self.text }, done]
        } else {
            seq![done]
        }
    }
}

/// What comes of a record, a broken transport and a reader who gave up.
pub open spec fn step_of(state: GoogleView, incoming: IncomingView<ChunkView>) -> (
    GoogleView,
    StepView,
) {
    match incoming {
        IncomingView::Cancelled => (state, stream::failing(StreamErrorView::Cancelled)),
        IncomingView::Broken(reason) => (state, stream::failing(stream::broken(reason))),
        IncomingView::Record(None) => (state, stream::silent()),
        IncomingView::Record(Some(chunk)) => (
            state.after(chunk),
            stream::telling(state.told(chunk)),
        ),
    }
}

impl GoogleStream {
    /// Starts to read an answer.
    pub fn open(model: &Model) -> (opened: (GoogleStream, Vec<AssistantMessageEvent>))
        ensures
            opened.0@ == fresh(model.deep_view()),
            opened.1.deep_view() == seq![EventView::Start],
    {
        let state = GoogleStream {
            text_buf: String::new(),
            text_started: false,
            tool_blocks: Vec::new(),
            stop: StopReason::Stop,
            usage: Usage::default(),
            response_model: None,
            api: model.api.clone(),
            provider: model.provider.clone(),
            model_id: model.id.clone(),
        };
        assert(state@.calls =~= Seq::empty());
        (state, stream::say(AssistantMessageEvent::Start, Next::Read).events)
    }

    fn take_text(&mut self, part: &Part, events: &mut Vec<AssistantMessageEvent>)
        ensures
            final(self)@ == old(self)@.after_text(part.deep_view()),
            final(events).deep_view() == old(events).deep_view() + old(self)@.told_text(
                part.deep_view(),
            ),
    {
        if let Some(text) = &part.text {
            if !text.as_str().is_empty() {
                if !self.text_started {
                    self.text_started = true;
                    stream::tell(events, AssistantMessageEvent::TextStart { content_index: 0 });
                }
                self.text_buf.append(text.as_str());
                stream::tell(
                    events,
                    AssistantMessageEvent::TextDelta { content_index: 0, delta: text.clone() },
                );
            }
        }
        assert(events.deep_view() =~= old(events).deep_view() + old(self)@.told_text(
            part.deep_view(),
        ));
    }

    fn take_call(&mut self, part: &Part, events: &mut Vec<AssistantMessageEvent>)
        ensures
            final(self)@ == old(self)@.after_call(part.deep_view()),
            final(events).deep_view() == old(events).deep_view() + old(self)@.told_call(
                part.deep_view(),
            ),
    {
        if let Some(call) = &part.function_call {
            let number = decimal_text(self.tool_blocks.len() as u128 + 1);
            let id = "call_".to_owned().concat(number.as_str());
            let block = ToolBlock {
                id: id.clone(),
                name: call.name.clone(),
                args: call.args.clone(),
            };
            let ghost view = block.deep_view();
            self.tool_blocks.push(block);
            assert(self@.calls =~= old(self)@.calls.push(view));
            let place: usize = if self.text_started {
                self.tool_blocks.len()
            } else {
                self.tool_blocks.len() - 1
            };
            stream::tell(
                events,
                AssistantMessageEvent::ToolCallStart {
                    content_index: place,
                    id: id.clone(),
                    name: call.name.clone(),
                },
            );
            stream::tell(
                events,
                AssistantMessageEvent::ToolCallEnd {
                    content_index: place,
                    id,
                    name: call.name.clone(),
                    arguments: call.args.clone(),
                },
            );
            if call.finish_reason_set_to_tool_use() && self.stop == StopReason::Stop {
                self.stop = StopReason::ToolUse;
            }
        }
        assert(events.deep_view() =~= old(events).deep_view() + old(self)@.told_call(
            part.deep_view(),
        ));
    }

    fn take_parts(&mut self, parts: &Vec<Part>, events: &mut Vec<AssistantMessageEvent>)
        ensures
            final(self)@ == old(self)@.after_parts(parts.deep_view()),
            final(events).deep_view() == old(events).deep_view() + old(self)@.told_parts(
                parts.deep_view(),
            ),
    {
        let ghost all = parts.deep_view();
        let ghost before = self@;
        let ghost head = events.deep_view();
        assert(head + before.told_parts(all.take(0)) =~= head);
        for i in 0..parts.len()
            invariant
                all == parts.deep_view(),
                self@ == before.after_parts(all.take(i as int)),
                events.deep_view() == head + before.told_parts(all.take(i as int)),
        {
            assert(all.take(i + 1).drop_last() =~= all.take(i as int));
            assert(all[i as int] == parts@[i as int].deep_view());
            self.take_text(&parts[i], events);
            self.take_call(&parts[i], events);
            assert(events.deep_view() =~= head + before.told_parts(all.take(i + 1)));
        }
        assert(all.take(all.len() as int) =~= all);
    }

    fn take_candidates(
        &mut self,
        candidates: &Vec<Candidate>,
        events: &mut Vec<AssistantMessageEvent>,
    )
        ensures
            final(self)@ == old(self)@.after_candidates(candidates.deep_view()),
            final(events).deep_view() == old(events).deep_view() + old(self)@.told_candidates(
                candidates.deep_view(),
            ),
    {
        let ghost all = candidates.deep_view();
        let ghost before = self@;
        let ghost head = events.deep_view();
        assert(head + before.told_candidates(all.take(0)) =~= head);
        for i in 0..candidates.len()
            invariant
                all == candidates.deep_view(),
                self@ == before.after_candidates(all.take(i as int)),
                events.deep_view() == head + before.told_candidates(all.take(i as int)),
        {
            assert(all.take(i + 1).drop_last() =~= all.take(i as int));
            assert(all[i as int] == candidates@[i as int].deep_view());
            if let Some(reason) = &candidates[i].finish_reason {
                self.stop = if crate::text::same(reason.as_str(), "MAX_TOKENS") {
                    StopReason::Length
                } else {
                    StopReason::Stop
                };
            }
            if let Some(content) = &candidates[i].content {
                self.take_parts(&content.parts, events);
            }
            assert(events.deep_view() =~= head + before.told_candidates(all.take(i + 1)));
        }
        assert(all.take(all.len() as int) =~= all);
    }

    /// Takes what arrives, and says what to tell and what to do next.
    pub fn receive(&mut self, incoming: Incoming<Chunk>) -> (step: Step)
        ensures
            (final(self)@, step.deep_view()) == step_of(old(self)@, incoming.deep_view()),
    {
        match incoming {
            Incoming::Cancelled => stream::say_nothing(Next::Fail(StreamError::Cancelled)),
            Incoming::Broken(reason) => stream::say_nothing(
                Next::Fail(stream::broken_error(reason.as_str())),
            ),
            Incoming::Record(None) => stream::say_nothing(Next::Read),
            Incoming::Record(Some(chunk)) => {
                if let Some(model) = &chunk.model_version {
                    self.response_model = Some(model.clone());
                }
                if let Some(u) = chunk.usage_metadata {
                    self.usage.input = u.prompt_token_count;
                    self.usage.output = u.candidates_token_count;
                    self.usage.total_tokens = u.total_token_count;
                }
                assert(self@ == old(self)@.after_counts(chunk.deep_view()));
                let mut events: Vec<AssistantMessageEvent> = Vec::new();
                self.take_candidates(&chunk.candidates, &mut events);
                let step = Step { events, next: Next::Read };
                assert(step.deep_view().events =~= old(self)@.told(chunk.deep_view()));
                step
            },
        }
    }

    fn collect(&self) -> (content: Vec<Content>)
        ensures
            content.deep_view() == self@.content(),
    {
        let mut content: Vec<Content> = Vec::new();
        if self.text_started {
            content.push(Content::Text { text: self.text_buf.clone() });
        }
        let ghost front = content.deep_view();
        assert(front =~= if self@.text_started {
            seq![ContentView::Text { text: self@.text }]
        } else {
            Seq::empty()
        });
        for k in 0..self.tool_blocks.len()
            invariant
                content.deep_view() =~= front + self@.call_content().take(k as int),
        {
            let block = &self.tool_blocks[k];
            assert(self@.calls[k as int] == block.deep_view());
            let piece = Content::ToolCall {
                id: block.id.clone(),
                name: block.name.clone(),
                arguments: block.args.clone(),
            };
            let ghost before = content.deep_view();
            assert(piece.deep_view() == self@.call_content()[k as int]);
            content.push(piece);
            assert(content.deep_view() =~= before.push(self@.call_content()[k as int]));
        }
        assert(content.deep_view() =~= self@.content());
        content
    }

    /// Ends the reading of an answer that has arrived whole.
    pub fn finish(self, now: u64) -> (events: Vec<AssistantMessageEvent>)
        ensures
            events.deep_view() == self@.ending(now),
    {
        let ghost all = self@;
        let mut events: Vec<AssistantMessageEvent> = Vec::new();
        if self.text_started {
            stream::tell(
                &mut events,
                AssistantMessageEvent::TextEnd { content_index: 0, content: self.text_buf.clone() },
            );
        }
        let stop = if self.tool_blocks.len() > 0 && self.stop == StopReason::Stop {
            StopReason::ToolUse
        } else {
            self.stop
        };
        let mut usage = self.usage;
        usage.priced = true;
        let message = AssistantMessage {
            content: self.collect(),
            api: self.api.clone(),
            provider: self.provider.clone(),
            model: match &self.response_model {
                Some(model) => model.clone(),
                None => self.model_id.clone(),
            },
            usage,
            stop_reason: stop,
            error_message: None,
            timestamp: now,
        };
        stream::tell(&mut events, AssistantMessageEvent::Done { reason: stop, message });
        assert(events.deep_view() =~= all.ending(now));
        events
    }
}

/// The answer after a sequence of chunks.
pub open spec fn after_all(state: GoogleView, chunks: Seq<ChunkView>) -> GoogleView
    decreases chunks.len(),
{
    if chunks.len() == 0 {
        state
    } else {
        after_all(state, chunks.drop_last()).after(chunks.last())
    }
}

/// All that a sequence of chunks tells.
pub open spec fn told_all(state: GoogleView, chunks: Seq<ChunkView>) -> Seq<EventView>
    decreases chunks.len(),
{
    if chunks.len() == 0 {
        Seq::empty()
    } else {
        told_all(state, chunks.drop_last()) + after_all(state, chunks.drop_last()).told(
            chunks.last(),
        )
    }
}

/// The calls whose end was told.
pub open spec fn told_calls(events: Seq<EventView>) -> Seq<ToolBlockView>
    decreases events.len(),
{
    if events.len() == 0 {
        Seq::empty()
    } else {
        match events.last() {
            EventView::ToolCallEnd { id, name, arguments, .. } => told_calls(
                events.drop_last(),
            ).push(ToolBlockView { id, name, args: arguments }),
            _ => told_calls(events.drop_last()),
        }
    }
}

proof fn lemma_told_calls_add(a: Seq<EventView>, b: Seq<EventView>)
    ensures
        told_calls(a + b) == told_calls(a) + told_calls(b),
    decreases b.len(),
{
    if b.len() == 0 {
        assert(a + b =~= a);
        assert(told_calls(a) + Seq::<ToolBlockView>::empty() =~= told_calls(a));
    } else {
        lemma_told_calls_add(a, b.drop_last());
        assert((a + b).drop_last() =~= a + b.drop_last());
        assert(told_calls(a + b) =~= told_calls(a) + told_calls(b));
    }
}

/// What holds of an answer and of all that was told of it.
spec fn faithful(state: GoogleView, told: Seq<EventView>) -> bool {
    &&& state.text == stream::told_text(told, 0)
    &&& state.text_started <==> state.text.len() > 0
    &&& state.calls == told_calls(told)
    &&& forall|k: int| 0 <= k < state.calls.len() ==> (#[trigger] state.calls[k]).id == call_id(
        k as nat,
    )
    &&& state.stop != StopReason::Error
    &&& state.calls.len() == 0 ==> state.stop != StopReason::ToolUse
    &&& state.calls.len() < usize::MAX && text_comes_first(told) ==> points_into(
        told,
        state.content(),
    )
}

/// Whether no text is told after a call.
pub open spec fn text_comes_first(events: Seq<EventView>) -> bool {
    forall|i: int, j: int|
        0 <= i < j < events.len() && #[trigger] events[i] is ToolCallEnd ==> !(
        #[trigger] events[j] is TextDelta)
}

/// Whether a call stands in some content at the place that its end tells.
pub open spec fn stands_in(event: EventView, content: Seq<ContentView>) -> bool {
    event matches EventView::ToolCallEnd { content_index, id, name, arguments } ==> content_index
        < content.len() && content[content_index as int] == (ContentView::ToolCall {
        id,
        name,
        arguments,
    })
}

/// Whether every call stands in some content at the place that its end tells.
pub open spec fn points_into(events: Seq<EventView>, content: Seq<ContentView>) -> bool {
    forall|i: int| 0 <= i < events.len() ==> stands_in(#[trigger] events[i], content)
}

/// Calls are told where an end of a call is told.
proof fn lemma_told_calls_some(events: Seq<EventView>)
    ensures
        told_calls(events).len() > 0 <==> exists|i: int|
            0 <= i < events.len() && #[trigger] events[i] is ToolCallEnd,
    decreases events.len(),
{
    if events.len() > 0 {
        let front = events.drop_last();
        lemma_told_calls_some(front);
        if exists|i: int| 0 <= i < events.len() && #[trigger] events[i] is ToolCallEnd {
            let i = choose|i: int| 0 <= i < events.len() && #[trigger] events[i] is ToolCallEnd;
            if i < front.len() {
                assert(front[i] is ToolCallEnd);
            }
        }
        if told_calls(events).len() > 0 {
            if events.last() is ToolCallEnd {
                assert(events[events.len() - 1] is ToolCallEnd);
            } else {
                let i = choose|i: int| 0 <= i < front.len() && #[trigger] front[i] is ToolCallEnd;
                assert(events[i] is ToolCallEnd);
            }
        }
    }
}

/// One part more leaves the calls where they were told, unless it brings text
/// after a call.
proof fn lemma_points_part(state: GoogleView, told: Seq<EventView>, part: PartView)
    requires
        state.calls == told_calls(told),
        state.after_part(part).calls.len() < usize::MAX,
        text_comes_first(told + state.told_part(part)),
        text_comes_first(told) ==> points_into(told, state.content()),
    ensures
        points_into(told + state.told_part(part), state.after_part(part).content()),
{
    let more = state.told_part(part);
    let all = told + more;
    let next = state.after_part(part);
    let mid = state.after_text(part);
    lemma_told_calls_some(told);
    assert(text_comes_first(told)) by {
        assert forall|i: int, j: int|
            0 <= i < j < told.len() && #[trigger] told[i] is ToolCallEnd implies !(
        #[trigger] told[j] is TextDelta) by {
            assert(all[i] == told[i] && all[j] == told[j]);
        }
    }
    let first = state.told_text(part);
    if GoogleView::has_text(part) && state.calls.len() > 0 {
        let i = choose|i: int| 0 <= i < told.len() && #[trigger] told[i] is ToolCallEnd;
        let j = told.len() + first.len() - 1;
        assert(all[i] is ToolCallEnd);
        assert(all[j] == first[first.len() - 1]);
        assert(all[j] is TextDelta);
    }
    assert forall|i: int| 0 <= i < all.len() implies stands_in(#[trigger] all[i], next.content()) by {
        if i < told.len() {
            assert(all[i] == told[i]);
            assert(stands_in(told[i], state.content()));
            if told[i] is ToolCallEnd {
                let at = told[i]->ToolCallEnd_content_index as int;
                assert(next.content()[at] == state.content()[at]);
            }
        } else {
            assert(all[i] == more[i - told.len()]);
            if all[i] is ToolCallEnd {
                let n = state.calls.len() as int;
                let at = mid.place(n) as int;
                assert(mid.content().len() == at);
                assert(next.calls[n] == next.calls.last());
                assert(next.content()[at] == next.call_content()[n]);
            }
        }
    }
}

proof fn lemma_part_told(state: GoogleView, part: PartView)
    ensures
        stream::told_text(state.told_part(part), 0) == if GoogleView::has_text(part) {
            part.text->0
        } else {
            Seq::empty()
        },
        told_calls(state.told_part(part)) == match part.function_call {
            Some(call) => seq![
                ToolBlockView {
                    id: call_id(state.calls.len()),
                    name: call.name,
                    args: call.args,
                },
            ],
            None => Seq::empty(),
        },
{
    let first = state.told_text(part);
    let second = state.after_text(part).told_call(part);
    stream::lemma_told_add(first, second, 0);
    lemma_told_calls_add(first, second);
    reveal_with_fuel(stream::told_text, 3);
    reveal_with_fuel(told_calls, 3);
    if first.len() > 0 {
        assert(first.last() == (EventView::TextDelta { content_index: 0, delta: part.text->0 }));
        assert(stream::told_text(first, 0) =~= part.text->0);
        assert(told_calls(first) =~= Seq::empty());
    }
    if second.len() > 0 {
        assert(stream::told_text(second, 0) =~= Seq::empty());
        assert(told_calls(second) =~= seq![
            ToolBlockView {
                id: call_id(state.calls.len()),
                name: part.function_call->0.name,
                args: part.function_call->0.args,
            },
        ]);
    }
    assert(stream::told_text(first, 0) + stream::told_text(second, 0) =~= stream::told_text(
        first,
        0,
    ));
    assert(told_calls(first) + told_calls(second) =~= told_calls(second));
}

proof fn lemma_faithful_part(state: GoogleView, told: Seq<EventView>, part: PartView)
    requires
        faithful(state, told),
    ensures
        faithful(state.after_part(part), told + state.told_part(part)),
{
    lemma_part_told(state, part);
    stream::lemma_told_add(told, state.told_part(part), 0);
    lemma_told_calls_add(told, state.told_part(part));
    let next = state.after_part(part);
    if next.calls.len() < usize::MAX && text_comes_first(told + state.told_part(part)) {
        lemma_points_part(state, told, part);
    }
    assert(state.text + Seq::<char>::empty() =~= state.text);
    assert(state.calls + Seq::<ToolBlockView>::empty() =~= state.calls);
    if part.function_call is Some {
        assert(next.calls =~= state.calls + told_calls(state.told_part(part)));
        assert forall|k: int| 0 <= k < next.calls.len() implies (#[trigger] next.calls[k]).id
            == call_id(k as nat) by {
            if k < state.calls.len() {
                assert(next.calls[k] == state.calls[k]);
            }
        }
    }
}

proof fn lemma_faithful_parts(state: GoogleView, told: Seq<EventView>, parts: Seq<PartView>)
    requires
        faithful(state, told),
    ensures
        faithful(state.after_parts(parts), told + state.told_parts(parts)),
    decreases parts.len(),
{
    if parts.len() == 0 {
        assert(told + state.told_parts(parts) =~= told);
    } else {
        let front = parts.drop_last();
        lemma_faithful_parts(state, told, front);
        lemma_faithful_part(
            state.after_parts(front),
            told + state.told_parts(front),
            parts.last(),
        );
        assert(told + state.told_parts(parts) =~= (told + state.told_parts(front))
            + state.after_parts(front).told_part(parts.last()));
    }
}

proof fn lemma_faithful_candidates(
    state: GoogleView,
    told: Seq<EventView>,
    candidates: Seq<CandidateView>,
)
    requires
        faithful(state, told),
    ensures
        faithful(state.after_candidates(candidates), told + state.told_candidates(candidates)),
    decreases candidates.len(),
{
    if candidates.len() == 0 {
        assert(told + state.told_candidates(candidates) =~= told);
    } else {
        let front = candidates.drop_last();
        lemma_faithful_candidates(state, told, front);
        let mid = state.after_candidates(front).after_reason(candidates.last());
        let parts = GoogleView::parts_of(candidates.last());
        lemma_faithful_parts(mid, told + state.told_candidates(front), parts);
        assert(told + state.told_candidates(candidates) =~= (told + state.told_candidates(front))
            + mid.told_parts(parts));
    }
}

proof fn lemma_faithful(model: ModelView, chunks: Seq<ChunkView>)
    ensures
        faithful(after_all(fresh(model), chunks), told_all(fresh(model), chunks)),
    decreases chunks.len(),
{
    if chunks.len() > 0 {
        let front = chunks.drop_last();
        lemma_faithful(model, front);
        let state = after_all(fresh(model), front);
        lemma_faithful_candidates(
            state.after_counts(chunks.last()),
            told_all(fresh(model), front),
            chunks.last().candidates,
        );
    } else {
        assert(fresh(model).calls =~= told_calls(Seq::empty()));
        assert(fresh(model).text =~= stream::told_text(Seq::empty(), 0));
    }
}

/// The answer holds what was told: its text is all the text that was told, and
/// its calls are the calls whose end was told, in their order.
pub proof fn law_answer_is_what_was_told(model: ModelView, chunks: Seq<ChunkView>)
    ensures
        after_all(fresh(model), chunks).text == stream::told_text(
            told_all(fresh(model), chunks),
            0,
        ),
        after_all(fresh(model), chunks).text_started <==> after_all(
            fresh(model),
            chunks,
        ).text.len() > 0,
        after_all(fresh(model), chunks).calls == told_calls(told_all(fresh(model), chunks)),
{
    lemma_faithful(model, chunks);
}

/// The end of a call tells where the call stands in the answer, where no text
/// is told after a call.
pub proof fn law_calls_point_into_the_answer(model: ModelView, chunks: Seq<ChunkView>, now: u64)
    requires
        after_all(fresh(model), chunks).calls.len() < usize::MAX,
        text_comes_first(told_all(fresh(model), chunks)),
    ensures
        points_into(
            told_all(fresh(model), chunks),
            after_all(fresh(model), chunks).message(now).content,
        ),
{
    lemma_faithful(model, chunks);
}

/// The calls of an answer are numbered from one, so no two of them have the
/// same id.
pub proof fn law_call_ids_differ(model: ModelView, chunks: Seq<ChunkView>, i: int, j: int)
    requires
        0 <= i < j < after_all(fresh(model), chunks).calls.len(),
    ensures
        after_all(fresh(model), chunks).calls[i].id == call_id(i as nat),
        after_all(fresh(model), chunks).calls[i].id != after_all(
            fresh(model),
            chunks,
        ).calls[j].id,
{
    lemma_faithful(model, chunks);
    if call_id(i as nat) == call_id(j as nat) {
        let start = "call_"@.len() as int;
        assert(call_id(i as nat).skip(start) =~= text::decimal(i as nat + 1));
        assert(call_id(j as nat).skip(start) =~= text::decimal(j as nat + 1));
        text::lemma_decimal_injective(i as nat + 1, j as nat + 1);
    }
}

/// The last finish reason among some candidates, or else an earlier one.
pub open spec fn last_reason_among(
    earlier: Option<Seq<char>>,
    candidates: Seq<CandidateView>,
) -> Option<Seq<char>>
    decreases candidates.len(),
{
    if candidates.len() == 0 {
        earlier
    } else {
        match candidates.last().finish_reason {
            Some(reason) => Some(reason),
            None => last_reason_among(earlier, candidates.drop_last()),
        }
    }
}

/// The last finish reason that was reported, over all candidates of all chunks.
pub open spec fn last_reason(chunks: Seq<ChunkView>) -> Option<Seq<char>>
    decreases chunks.len(),
{
    if chunks.len() == 0 {
        None
    } else {
        last_reason_among(last_reason(chunks.drop_last()), chunks.last().candidates)
    }
}

/// Calls do not change whether the limit was reached.
proof fn lemma_parts_limit(state: GoogleView, parts: Seq<PartView>)
    ensures
        state.after_parts(parts).stop == StopReason::Length <==> state.stop == StopReason::Length,
    decreases parts.len(),
{
    if parts.len() > 0 {
        lemma_parts_limit(state, parts.drop_last());
    }
}

proof fn lemma_candidates_limit(
    state: GoogleView,
    earlier: Option<Seq<char>>,
    candidates: Seq<CandidateView>,
)
    requires
        state.stop == StopReason::Length <==> earlier == Some("MAX_TOKENS"@),
    ensures
        state.after_candidates(candidates).stop == StopReason::Length <==> last_reason_among(
            earlier,
            candidates,
        ) == Some("MAX_TOKENS"@),
    decreases candidates.len(),
{
    if candidates.len() > 0 {
        let front = candidates.drop_last();
        lemma_candidates_limit(state, earlier, front);
        lemma_parts_limit(
            state.after_candidates(front).after_reason(candidates.last()),
            GoogleView::parts_of(candidates.last()),
        );
    }
}

proof fn lemma_limit(model: ModelView, chunks: Seq<ChunkView>)
    ensures
        after_all(fresh(model), chunks).stop == StopReason::Length <==> last_reason(chunks) == Some(
            "MAX_TOKENS"@,
        ),
    decreases chunks.len(),
{
    if chunks.len() > 0 {
        let front = chunks.drop_last();
        lemma_limit(model, front);
        lemma_candidates_limit(
            after_all(fresh(model), front).after_counts(chunks.last()),
            last_reason(front),
            chunks.last().candidates,
        );
    }
}

/// An answer of which the limit is the last finish reason that was reported has
/// stopped at the limit, with or without calls, however its chunks are cut; and
/// no other answer has.
pub proof fn law_limit_stands(model: ModelView, chunks: Seq<ChunkView>)
    ensures
        last_reason(chunks) == Some("MAX_TOKENS"@) <==> after_all(
            fresh(model),
            chunks,
        ).final_stop() == StopReason::Length,
{
    lemma_limit(model, chunks);
}

/// Where the limit is not the last finish reason that was reported, an answer
/// stops for its calls where it has any, and simply stops where it has none.
pub proof fn law_calls_mean_tool_use(model: ModelView, chunks: Seq<ChunkView>)
    requires
        last_reason(chunks) != Some("MAX_TOKENS"@),
    ensures
        after_all(fresh(model), chunks).final_stop() == if after_all(
            fresh(model),
            chunks,
        ).calls.len() > 0 {
            StopReason::ToolUse
        } else {
            StopReason::Stop
        },
{
    lemma_faithful(model, chunks);
    lemma_limit(model, chunks);
}

proof fn lemma_parts_midway(state: GoogleView, parts: Seq<PartView>)
    ensures
        stream::midway(state.told_parts(parts)),
    decreases parts.len(),
{
    if parts.len() > 0 {
        lemma_parts_midway(state, parts.drop_last());
    }
}

proof fn lemma_candidates_midway(state: GoogleView, candidates: Seq<CandidateView>)
    ensures
        stream::midway(state.told_candidates(candidates)),
    decreases candidates.len(),
{
    if candidates.len() > 0 {
        let front = candidates.drop_last();
        lemma_candidates_midway(state, front);
        lemma_parts_midway(
            state.after_candidates(front).after_reason(candidates.last()),
            GoogleView::parts_of(candidates.last()),
        );
    }
}

/// While an answer arrives nothing that is told begins or ends it; its end tells
/// the answer last.
pub proof fn law_answer_is_told_last(
    state: GoogleView,
    incoming: IncomingView<ChunkView>,
    now: u64,
)
    ensures
        stream::midway(step_of(state, incoming).1.events),
        step_of(state, incoming).1.next != NextView::Close,
        stream::midway(state.ending(now).drop_last()),
        state.ending(now).last() is Done,
{
    if let IncomingView::Record(Some(chunk)) = incoming {
        lemma_candidates_midway(state.after_counts(chunk), chunk.candidates);
    }
}

} // verus!
